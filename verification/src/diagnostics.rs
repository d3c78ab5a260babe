use vstd::prelude::*;

use crate::errors::{MountMateError, error_text};
use crate::naming::{mac_smb_url, smb_url_text, unc_path_text, windows_unc_path};
use crate::platform::{CheckStatus, DiagnosticCheck, Platform, check, mount_point_for, mount_point_text, texts};
use crate::profile::Profile;
use crate::text::{concat, owned, push_char};

verus! {

/// What the user interface shows of a profile.
#[derive(Debug)]
pub struct ProfileView {
    pub id: String,
    pub display_name: String,
    pub server: String,
    pub share: String,
    pub domain: String,
    pub username: String,
    pub default_drive_letter: String,
    pub mount_name: String,
    pub smb_url: String,
    pub unc_path: String,
    pub mount_point: String,
    pub is_mounted: bool,
    pub has_password: bool,
}

/// `v` shows profile `p` on `platform`, mounted or not.
pub open spec fn is_view_of(v: ProfileView, p: Profile, platform: Platform, mounted: bool) -> bool {
    &&& v.id@ == p.id@
    &&& v.display_name@ == p.display_name@
    &&& v.server@ == p.server@
    &&& v.share@ == p.share@
    &&& v.domain@ == p.domain@
    &&& v.username@ == p.username@
    &&& v.default_drive_letter@ == p.default_drive_letter@
    &&& v.mount_name@ == p.mount_name@
    &&& v.smb_url@ == smb_url_text(p)
    &&& v.unc_path@ == unc_path_text(p)
    &&& v.mount_point@ == mount_point_text(platform, p)
    &&& v.is_mounted == mounted
    &&& v.has_password
}

/// The view of a profile; `mounted` tells whether its share is mounted.
pub fn profile_to_view(profile: &Profile, platform: &Platform, mounted: bool) -> (r: ProfileView)
    ensures
        is_view_of(r, *profile, *platform, mounted),
        r.id@ == profile.id@,
        r.display_name@ == profile.display_name@,
        r.server@ == profile.server@,
        r.share@ == profile.share@,
        r.domain@ == profile.domain@,
        r.username@ == profile.username@,
        r.default_drive_letter@ == profile.default_drive_letter@,
        r.mount_name@ == profile.mount_name@,
        r.is_mounted == mounted,
        r.has_password,
{
    ProfileView {
        id: profile.id.clone(),
        display_name: profile.display_name.clone(),
        server: profile.server.clone(),
        share: profile.share.clone(),
        domain: profile.domain.clone(),
        username: profile.username.clone(),
        default_drive_letter: profile.default_drive_letter.clone(),
        mount_name: profile.mount_name.clone(),
        smb_url: mac_smb_url(profile),
        unc_path: windows_unc_path(profile),
        mount_point: mount_point_for(platform, profile),
        is_mounted: mounted,
        has_password: true,
    }
}

/// A view shows its profile's own fields: id, display name, server, share,
/// domain, user name, drive letter and mount name are the profile's, and the
/// URL and UNC path are built from its server and share.
pub proof fn lemma_view_shows_profile(v: ProfileView, p: Profile, platform: Platform, mounted: bool)
    requires
        is_view_of(v, p, platform, mounted),
    ensures
        v.id@ == p.id@,
        v.display_name@ == p.display_name@,
        v.server@ == p.server@,
        v.share@ == p.share@,
        v.domain@ == p.domain@,
        v.username@ == p.username@,
        v.default_drive_letter@ == p.default_drive_letter@,
        v.mount_name@ == p.mount_name@,
        v.unc_path@ == "\\\\"@ + p.server@ + "\\"@ + p.share@,
        v.is_mounted == mounted,
{
}

/// The views of all profiles, in order; `mounted[i]` tells whether the
/// `i`-th profile is mounted (a profile without an entry is not).
pub fn profiles_to_views(profiles: &Vec<Profile>, platform: &Platform, mounted: &Vec<bool>) -> (r: Vec<ProfileView>)
    ensures
        r@.len() == profiles@.len(),
        forall|i: int|
            0 <= i < profiles@.len() ==> is_view_of(
                #[trigger] r@[i],
                profiles@[i],
                *platform,
                i < mounted@.len() && mounted@[i],
            ),
{
    let mut r: Vec<ProfileView> = Vec::new();
    let mut i: usize = 0;
    while i < profiles.len()
        invariant
            i <= profiles.len(),
            r@.len() == i,
            forall|j: int|
                0 <= j < i ==> is_view_of(
                    #[trigger] r@[j],
                    profiles@[j],
                    *platform,
                    j < mounted@.len() && mounted@[j],
                ),
        decreases profiles.len() - i,
    {
        let m = i < mounted.len() && mounted[i];
        r.push(profile_to_view(&profiles[i], platform, m));
        i = i + 1;
    }
    r
}

// ---------------------------------------------------------------------------
// Decimal numbers
// ---------------------------------------------------------------------------

pub open spec fn digit_char(d: nat) -> char {
    ((d + 0x30) as u8) as char
}

/// The decimal digits of `n`, as `Display` prints an integer.
pub open spec fn decimal_text(n: nat) -> Seq<char>
    decreases n,
{
    if n < 10 {
        seq![digit_char(n)]
    } else {
        decimal_text(n / 10).push(digit_char(n % 10))
    }
}

/// `n` in decimal.
pub fn decimal(n: u128) -> (r: String)
    ensures
        r@ == decimal_text(n as nat),
{
    let mut v = n;
    let mut digits: Vec<char> = Vec::new();
    while v >= 10
        invariant
            decimal_text(n as nat) == decimal_text(v as nat) + digits@,
        decreases v,
    {
        let d = (v % 10) as u8;
        digits.insert(0, (d + 0x30) as char);
        assert(decimal_text(v as nat) == decimal_text((v / 10) as nat).push(digit_char((v % 10) as nat)));
        v = v / 10;
    }
    digits.insert(0, ((v as u8) + 0x30) as char);
    let r = crate::text::string_of_chars(&digits);
    r
}

// ---------------------------------------------------------------------------
// Connection test
// ---------------------------------------------------------------------------

/// The result of a connection test: the profile, the checks, and what to try.
#[derive(Debug)]
pub struct DiagnosticResult {
    pub profile: ProfileView,
    pub checks: Vec<DiagnosticCheck>,
    pub suggestions: Vec<String>,
}

/// The text of a check.
pub open spec fn check_text(c: DiagnosticCheck) -> (Seq<char>, CheckStatus, Seq<char>) {
    (c.name@, c.status, c.message@)
}

pub open spec fn check_texts(cs: Seq<DiagnosticCheck>) -> Seq<(Seq<char>, CheckStatus, Seq<char>)> {
    cs.map_values(|c: DiagnosticCheck| check_text(c))
}

pub open spec fn port_suggestion() -> Seq<char> {
    "确认电脑与服务器在同一网络，服务器防火墙允许 TCP 445。"@
}

pub open spec fn credential_suggestion() -> Seq<char> {
    "重新导入包含 password 字段的配置包，导入后本地配置不会保存明文密码。"@
}

pub open spec fn mount_suggestion() -> Seq<char> {
    "先点击挂载；如果失败，错误信息通常能区分密码错误、共享名错误或权限不足。"@
}

/// The port check: reachable after `ms` milliseconds, or the failure message.
pub open spec fn port_check(server: Seq<char>, port: Result<u128, String>) -> (Seq<char>, CheckStatus, Seq<char>) {
    match port {
        Ok(ms) => (
            "SMB 端口"@,
            CheckStatus::Pass,
            server + ":445 可连接，耗时 "@ + decimal_text(ms as nat) + " ms"@,
        ),
        Err(m) => ("SMB 端口"@, CheckStatus::Fail, m@),
    }
}

/// The checks of a connection test, in order.
pub open spec fn expected_checks(
    p: Profile,
    platform: Platform,
    port: Result<u128, String>,
    credential: Result<DiagnosticCheck, MountMateError>,
    mounted: bool,
) -> Seq<(Seq<char>, CheckStatus, Seq<char>)> {
    let first = seq![port_check(p.server@, port)];
    let second = match credential {
        Ok(probe) => seq![("凭据"@, CheckStatus::Pass, "密码已保存在系统安全存储。"@), check_text(probe)],
        Err(e) => seq![("凭据"@, CheckStatus::Fail, error_text(e))],
    };
    let third = if mounted {
        seq![("挂载状态"@, CheckStatus::Pass, "已挂载："@ + mount_point_text(platform, p))]
    } else {
        seq![("挂载状态"@, CheckStatus::Warn, "当前未挂载。"@)]
    };
    first + second + third
}

/// The suggestions of a connection test, in order.
pub open spec fn expected_suggestions(
    port: Result<u128, String>,
    credential: Result<DiagnosticCheck, MountMateError>,
    mounted: bool,
) -> Seq<Seq<char>> {
    (if port is Err {
        seq![port_suggestion()]
    } else {
        Seq::empty()
    }) + (if credential is Err {
        seq![credential_suggestion()]
    } else {
        Seq::empty()
    }) + (if !mounted {
        seq![mount_suggestion()]
    } else {
        Seq::empty()
    })
}

/// Puts together the diagnosis of a profile. `port` is the time it took to
/// reach port 445, or why it could not be reached; `credential` is the share
/// probe made with the saved password, or why the password could not be read;
/// `mounted` tells whether the share is mounted.
pub fn test_connection(
    profile: &Profile,
    platform: &Platform,
    port: Result<u128, String>,
    credential: Result<DiagnosticCheck, MountMateError>,
    mounted: bool,
) -> (r: DiagnosticResult)
    ensures
        check_texts(r.checks@) == expected_checks(*profile, *platform, port, credential, mounted),
        texts(r.suggestions@) == expected_suggestions(port, credential, mounted),
        is_view_of(r.profile, *profile, *platform, mounted),
{
    let ghost port0 = port;
    let ghost cred0 = credential;
    let mut checks: Vec<DiagnosticCheck> = Vec::new();
    let mut suggestions: Vec<String> = Vec::new();
    match port {
        Ok(ms) => {
            let mut message = concat(profile.server.as_str(), ":445 可连接，耗时 ");
            message.append(decimal(ms).as_str());
            message.append(" ms");
            checks.push(check("SMB 端口", CheckStatus::Pass, message));
        },
        Err(message) => {
            checks.push(check("SMB 端口", CheckStatus::Fail, message));
            suggestions.push(owned("确认电脑与服务器在同一网络，服务器防火墙允许 TCP 445。"));
        },
    }
    assert(check_texts(checks@) =~= seq![port_check(profile.server@, port0)]);
    let ghost after_port = checks@;
    match credential {
        Ok(probe) => {
            checks.push(check("凭据", CheckStatus::Pass, owned("密码已保存在系统安全存储。")));
            checks.push(probe);
        },
        Err(error) => {
            checks.push(check("凭据", CheckStatus::Fail, error.message()));
            suggestions.push(owned("重新导入包含 password 字段的配置包，导入后本地配置不会保存明文密码。"));
        },
    }
    if mounted {
        let mut message = owned("已挂载：");
        message.append(mount_point_for(platform, profile).as_str());
        checks.push(check("挂载状态", CheckStatus::Pass, message));
    } else {
        checks.push(check("挂载状态", CheckStatus::Warn, owned("当前未挂载。")));
        suggestions.push(owned("先点击挂载；如果失败，错误信息通常能区分密码错误、共享名错误或权限不足。"));
    }
    assert(check_texts(checks@) =~= expected_checks(*profile, *platform, port0, cred0, mounted));
    assert(texts(suggestions@) =~= expected_suggestions(port0, cred0, mounted));
    DiagnosticResult { profile: profile_to_view(profile, platform, mounted), checks, suggestions }
}

/// The failure message when the server's address cannot be resolved.
pub fn resolve_failure_message(server: &str, error: &str) -> (r: String)
    ensures
        r@ == "无法解析服务器地址 "@ + server@ + ": "@ + error@,
{
    let mut r = concat("无法解析服务器地址 ", server);
    r.append(": ");
    r.append(error);
    r
}

/// The failure message when no address of the server answers on port 445.
pub fn unreachable_message(server: &str) -> (r: String)
    ensures
        r@ == server@ + ":445 不可达或超时。"@,
{
    concat(server, ":445 不可达或超时。")
}

} // verus!
