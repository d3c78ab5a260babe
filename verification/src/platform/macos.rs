use vstd::prelude::*;

use crate::errors::{MountMateError, process_error, validation_error};
use crate::naming::{
    applescript_escape, applescript_escaped, mac_smb_url, qualified_username, qualified_username_text,
    smb_url_text,
};
use crate::platform::{
    CheckStatus, CommandRequest, CommandSpec, DiagnosticCheck, Platform, check, check_is, plain_request,
    request_is, texts,
};
use crate::profile::Profile;
use crate::text::{concat, contains, contains_str, owned};

verus! {

/// `/Volumes/<mountName>`.
pub open spec fn mount_point_text(p: Profile) -> Seq<char> {
    "/Volumes/"@ + p.mount_name@
}

/// `/Volumes/<share>`.
pub open spec fn share_path_text(p: Profile) -> Seq<char> {
    "/Volumes/"@ + p.share@
}

/// Where the share is expected to be mounted.
pub fn mount_point(profile: &Profile) -> (r: String)
    ensures
        r@ == mount_point_text(*profile),
{
    concat("/Volumes/", profile.mount_name.as_str())
}

/// Whether two path texts name the same path, compared component by
/// component as `std::path::Path` compares them.
pub uninterp spec fn path_eq(a: Seq<char>, b: Seq<char>) -> bool;

/// Trusted: compares `std::path::Path::new(a)` with `std::path::Path::new(b)`
/// by `==`. std documents that paths compare by their components; the
/// contract claims only that the result is a function of the two texts and
/// that equal texts give equal paths.
#[verifier::external_body]
fn same_path(a: &str, b: &str) -> (r: bool)
    ensures
        r == path_eq(a@, b@),
        a@ == b@ ==> r,
{
    std::path::Path::new(a) == std::path::Path::new(b)
}

/// The paths where the share may be mounted: the mount point, then
/// `/Volumes/<share>` unless it is the same path.
pub open spec fn candidates(p: Profile) -> Seq<Seq<char>> {
    if path_eq(mount_point_text(p), share_path_text(p)) {
        seq![mount_point_text(p)]
    } else {
        seq![mount_point_text(p), share_path_text(p)]
    }
}

/// The paths where the share may be mounted.
pub fn candidate_mount_paths(profile: &Profile) -> (r: Vec<String>)
    ensures
        texts(r@) == candidates(*profile),
{
    let first = mount_point(profile);
    let share_path = concat("/Volumes/", profile.share.as_str());
    let same = same_path(first.as_str(), share_path.as_str());
    let mut paths = vec![first];
    if !same {
        paths.push(share_path);
    }
    assert(texts(paths@) =~= candidates(*profile));
    paths
}

/// A path counts as mounted when the output of `mount` names it, or, when
/// `mount` could not be run, when it exists.
pub open spec fn listed(path: Seq<char>, mount_output: Option<Seq<char>>, exists: bool) -> bool {
    match mount_output {
        Some(out) => contains(out, path),
        None => exists,
    }
}

/// Whether the output of `mount` (when it could be run) shows `path` mounted.
pub fn mount_output_contains(path: &str, mount_output: Option<&str>, exists: bool) -> (r: bool)
    ensures
        r == listed(path@, match mount_output {
            Some(o) => Some(o@),
            None => None,
        }, exists),
{
    match mount_output {
        Some(out) => contains_str(out, path),
        None => exists,
    }
}

/// Whether the `i`-th candidate exists; a candidate without a probe does not.
pub open spec fn probed(exists: Seq<bool>, i: int) -> bool {
    0 <= i < exists.len() && exists[i]
}

/// The `i`-th candidate is the mounted share.
pub open spec fn is_live(p: Profile, exists: Seq<bool>, out: Option<Seq<char>>, i: int) -> bool {
    0 <= i < candidates(p).len() && probed(exists, i) && listed(candidates(p)[i], out, probed(exists, i))
}

pub open spec fn opt_view(o: Option<&str>) -> Option<Seq<char>> {
    match o {
        Some(s) => Some(s@),
        None => None,
    }
}

/// The first candidate path that exists and is mounted. `exists[i]` tells
/// whether the `i`-th candidate exists; `mount_output` is what `mount`
/// printed, when it could be run.
pub fn mounted_path(profile: &Profile, exists: &Vec<bool>, mount_output: Option<&str>) -> (r: Option<String>)
    ensures
        match r {
            Some(s) => exists|i: int|
                is_live(*profile, exists@, opt_view(mount_output), i) && s@ == candidates(*profile)[i]
                    && forall|j: int| 0 <= j < i ==> !is_live(*profile, exists@, opt_view(mount_output), j),
            None => forall|i: int| !is_live(*profile, exists@, opt_view(mount_output), i),
        },
{
    let paths = candidate_mount_paths(profile);
    let mut i: usize = 0;
    while i < paths.len()
        invariant
            i <= paths.len(),
            texts(paths@) == candidates(*profile),
            forall|j: int| 0 <= j < i ==> !is_live(*profile, exists@, opt_view(mount_output), j),
        decreases paths.len() - i,
    {
        let present = i < exists.len() && exists[i];
        assert(paths@[i as int]@ == candidates(*profile)[i as int]);
        if present && mount_output_contains(paths[i].as_str(), mount_output, present) {
            return Some(paths[i].clone());
        }
        i = i + 1;
    }
    None
}

/// Whether the share is mounted: some candidate path is.
pub fn is_mounted(profile: &Profile, exists: &Vec<bool>, mount_output: Option<&str>) -> (r: bool)
    ensures
        r == exists|i: int| is_live(*profile, exists@, opt_view(mount_output), i),
{
    mounted_path(profile, exists, mount_output).is_some()
}

/// The AppleScript that mounts the share with the given password.
pub open spec fn mount_script_text(p: Profile, password: Seq<char>) -> Seq<char> {
    "mount volume \""@ + applescript_escaped(smb_url_text(p)) + "\" as user name \""@
        + applescript_escaped(qualified_username_text(p, Platform::MacOs)) + "\" with password \""@
        + applescript_escaped(password) + "\"\n"@
}

/// The `osascript` command that mounts the share, the script on standard
/// input; none when the share is already mounted.
pub fn mount(profile: &Profile, password: &str, mounted: bool) -> (r: Option<CommandRequest>)
    ensures
        mounted ==> r is None,
        !mounted ==> (r matches Some(q) && request_is(
            q,
            "osascript"@,
            seq!["-"@],
            Some(mount_script_text(*profile, password@)),
            Some(password@),
        )),
{
    if mounted {
        return None;
    }
    let url = mac_smb_url(profile);
    let user = qualified_username(profile, &Platform::MacOs);
    let mut script = concat("mount volume \"", applescript_escape(url.as_str()).as_str());
    script.append("\" as user name \"");
    script.append(applescript_escape(user.as_str()).as_str());
    script.append("\" with password \"");
    script.append(applescript_escape(password).as_str());
    script.append("\"\n");
    let args = vec![owned("-")];
    let spec = CommandSpec { program: owned("osascript"), args };
    assert(texts(spec.args@) =~= seq!["-"@]);
    Some(CommandRequest { spec, stdin: Some(script), secret: Some(owned(password)) })
}

/// The message when `osascript` succeeded but no mount shows up.
pub open spec fn mount_missing_text() -> Seq<char> {
    "系统命令已返回成功，但未检测到挂载目录。"@
}

/// After the mount command succeeded: fine when the share now shows up as
/// mounted, else a process error.
pub fn confirm_mount(mounted: bool) -> (r: Result<(), MountMateError>)
    ensures
        mounted ==> r is Ok,
        !mounted ==> (r matches Err(MountMateError::Process(m)) && m@ == mount_missing_text()),
{
    if mounted {
        Ok(())
    } else {
        Err(process_error("系统命令已返回成功，但未检测到挂载目录。"))
    }
}

/// The candidate paths that exist, in order.
pub open spec fn unmount_targets(c: Seq<Seq<char>>, exists: Seq<bool>, n: int) -> Seq<Seq<char>>
    decreases n,
{
    if n <= 0 {
        Seq::empty()
    } else if probed(exists, n - 1) {
        unmount_targets(c, exists, n - 1).push(c[n - 1])
    } else {
        unmount_targets(c, exists, n - 1)
    }
}

/// One `diskutil unmount <path>` for each candidate path that exists.
pub fn unmount(profile: &Profile, exists: &Vec<bool>) -> (r: Vec<CommandRequest>)
    ensures
        ({
            let t = unmount_targets(candidates(*profile), exists@, candidates(*profile).len() as int);
            &&& r@.len() == t.len()
            &&& forall|k: int| 0 <= k < t.len() ==> request_is(
                #[trigger] r@[k],
                "diskutil"@,
                seq!["unmount"@, t[k]],
                None,
                None,
            )
        }),
{
    let paths = candidate_mount_paths(profile);
    let mut r: Vec<CommandRequest> = Vec::new();
    let mut i: usize = 0;
    while i < paths.len()
        invariant
            i <= paths.len(),
            texts(paths@) == candidates(*profile),
            ({
                let t = unmount_targets(candidates(*profile), exists@, i as int);
                &&& r@.len() == t.len()
                &&& forall|k: int| 0 <= k < t.len() ==> request_is(
                    #[trigger] r@[k],
                    "diskutil"@,
                    seq!["unmount"@, t[k]],
                    None,
                    None,
                )
            }),
        decreases paths.len() - i,
    {
        if i < exists.len() && exists[i] {
            let args = vec![owned("unmount"), paths[i].clone()];
            let spec = CommandSpec { program: owned("diskutil"), args };
            assert(paths@[i as int]@ == candidates(*profile)[i as int]);
            assert(texts(spec.args@) =~= seq!["unmount"@, candidates(*profile)[i as int]]);
            r.push(plain_request(spec));
        }
        i = i + 1;
    }
    r
}

/// After the unmount commands: an error when some were run and the share
/// still shows up as mounted.
pub fn confirm_unmount(attempted: bool, still_mounted: bool) -> (r: Result<(), MountMateError>)
    ensures
        (attempted && still_mounted) ==> (r matches Err(MountMateError::Process(m)) && m@ == "断开挂载失败。"@),
        !(attempted && still_mounted) ==> r is Ok,
{
    if attempted && still_mounted {
        return Err(process_error("断开挂载失败。"));
    }
    Ok(())
}

/// The directory to open: where the share is mounted, or else the mount point.
pub fn open_target(profile: &Profile, mounted_path: Option<String>) -> (r: String)
    ensures
        match mounted_path {
            Some(p) => r == p,
            None => r@ == mount_point_text(*profile),
        },
{
    match mounted_path {
        Some(p) => p,
        None => mount_point(profile),
    }
}

/// The `open` command for the directory, or the error when it does not exist.
pub fn open_mount(target: String, exists: bool) -> (r: Result<CommandRequest, MountMateError>)
    ensures
        !exists ==> (r matches Err(MountMateError::Validation(m)) && m@ == "共享盘尚未挂载，无法打开目录。"@),
        exists ==> (r matches Ok(q) && request_is(q, "open"@, seq![target@], None, None)),
{
    if !exists {
        return Err(validation_error("共享盘尚未挂载，无法打开目录。"));
    }
    let ghost t = target@;
    let args = vec![target];
    let spec = CommandSpec { program: owned("open"), args };
    assert(texts(spec.args@) =~= seq![t]);
    Ok(plain_request(spec))
}

/// The share check on macOS, which does not probe: passed when mounted, a
/// warning otherwise.
pub fn probe_share(mounted: bool) -> (r: DiagnosticCheck)
    ensures
        mounted ==> check_is(r, "共享访问"@, CheckStatus::Pass, "共享盘已挂载，认证与共享名可用。"@),
        !mounted ==> check_is(
            r,
            "共享访问"@,
            CheckStatus::Warn,
            "macOS 会在挂载时验证认证与共享名；当前未挂载，暂不做破坏性探测。"@,
        ),
{
    if mounted {
        check("共享访问", CheckStatus::Pass, owned("共享盘已挂载，认证与共享名可用。"))
    } else {
        check(
            "共享访问",
            CheckStatus::Warn,
            owned("macOS 会在挂载时验证认证与共享名；当前未挂载，暂不做破坏性探测。"),
        )
    }
}

} // verus!
