use vstd::prelude::*;

use crate::errors::{MountMateError, error_text, validation_error};
use crate::naming::{
    drive_mount_text, qualified_username, qualified_username_text, unc_path_text, windows_drive_mount,
    windows_unc_path,
};
use crate::platform::{
    CheckStatus, CommandRequest, CommandSpec, DiagnosticCheck, Platform, check, check_is, plain_request,
    opt_text, request_is, spec_is, texts,
};
use crate::profile::Profile;
use crate::text::{concat, owned, trim_ws};

verus! {

/// `Z:\` for drive letter `Z`.
pub open spec fn mount_point_text(p: Profile) -> Seq<char> {
    drive_mount_text(p) + "\\"@
}

/// The root of the drive the share is mapped to.
pub fn mount_point(profile: &Profile) -> (r: String)
    ensures
        r@ == mount_point_text(*profile),
{
    let drive = windows_drive_mount(profile);
    concat(drive.as_str(), "\\")
}

/// The mapped drive's root when it exists.
pub fn mounted_path(profile: &Profile, mount_point_exists: bool) -> (r: Option<String>)
    ensures
        match r {
            Some(s) => mount_point_exists && s@ == mount_point_text(*profile),
            None => !mount_point_exists,
        },
{
    if mount_point_exists {
        Some(mount_point(profile))
    } else {
        None
    }
}

/// The arguments of `net use` that map the share persistently, the password
/// to be read from standard input.
pub open spec fn mount_args(p: Profile) -> Seq<Seq<char>> {
    seq![
        "use"@,
        drive_mount_text(p),
        unc_path_text(p),
        "/user:"@ + qualified_username_text(p, Platform::Windows),
        "*"@,
        "/persistent:yes"@,
    ]
}

/// `net use Z: \\server\share /user:name * /persistent:yes`.
pub fn windows_mount_command(profile: &Profile) -> (r: CommandSpec)
    ensures
        spec_is(r, "net"@, mount_args(*profile)),
{
    let user = qualified_username(profile, &Platform::Windows);
    let args = vec![
        owned("use"),
        windows_drive_mount(profile),
        windows_unc_path(profile),
        concat("/user:", user.as_str()),
        owned("*"),
        owned("/persistent:yes"),
    ];
    let r = CommandSpec { program: owned("net"), args };
    assert(texts(r.args@) =~= mount_args(*profile));
    r
}

/// The password followed by a newline, as `net use` reads it.
pub open spec fn password_line(password: Seq<char>) -> Seq<char> {
    password + "\n"@
}

/// The command that maps the share, or none when the drive is already there.
/// The password goes to the command's standard input, never into its
/// arguments.
pub fn mount(profile: &Profile, password: &str, mounted: bool) -> (r: Option<CommandRequest>)
    ensures
        mounted ==> r is None,
        !mounted ==> (r matches Some(q) && request_is(
            q,
            "net"@,
            mount_args(*profile),
            Some(password_line(password@)),
            Some(password@),
        )),
{
    if mounted {
        return None;
    }
    let spec = windows_mount_command(profile);
    Some(CommandRequest { spec, stdin: Some(concat(password, "\n")), secret: Some(owned(password)) })
}

/// The command arguments that map a share do not depend on the password:
/// mounting with two passwords gives the same arguments, and each password
/// goes to standard input only.
pub proof fn lemma_password_not_in_arguments(
    p: Profile,
    pw1: Seq<char>,
    pw2: Seq<char>,
    q1: CommandRequest,
    q2: CommandRequest,
)
    requires
        request_is(q1, "net"@, mount_args(p), Some(password_line(pw1)), Some(pw1)),
        request_is(q2, "net"@, mount_args(p), Some(password_line(pw2)), Some(pw2)),
    ensures
        texts(q1.spec.args@) == texts(q2.spec.args@),
        opt_text(q1.stdin) == Some(pw1 + "\n"@),
        opt_text(q2.stdin) == Some(pw2 + "\n"@),
{
}

/// `net use Z: /delete /y`.
pub open spec fn unmount_args(p: Profile) -> Seq<Seq<char>> {
    seq!["use"@, drive_mount_text(p), "/delete"@, "/y"@]
}

/// The command that removes the mapping, or none when the drive is not there.
pub fn unmount(profile: &Profile, mounted: bool) -> (r: Option<CommandRequest>)
    ensures
        !mounted ==> r is None,
        mounted ==> (r matches Some(q) && request_is(q, "net"@, unmount_args(*profile), None, None)),
{
    if !mounted {
        return None;
    }
    let args = vec![owned("use"), windows_drive_mount(profile), owned("/delete"), owned("/y")];
    let spec = CommandSpec { program: owned("net"), args };
    assert(texts(spec.args@) =~= unmount_args(*profile));
    Some(plain_request(spec))
}

/// The message for opening a share that is not mounted.
pub open spec fn not_mounted_text() -> Seq<char> {
    "共享盘尚未挂载，无法打开目录。"@
}

/// The command that opens the mapped drive in Explorer, or the error when it
/// is not mounted.
pub fn open_mount(profile: &Profile, mounted: bool) -> (r: Result<CommandRequest, MountMateError>)
    ensures
        !mounted ==> (r matches Err(MountMateError::Validation(m)) && m@ == not_mounted_text()),
        mounted ==> (r matches Ok(q) && request_is(q, "explorer.exe"@, seq![mount_point_text(*profile)], None, None)),
{
    if !mounted {
        return Err(validation_error("共享盘尚未挂载，无法打开目录。"));
    }
    let args = vec![mount_point(profile)];
    let spec = CommandSpec { program: owned("explorer.exe"), args };
    assert(texts(spec.args@) =~= seq![mount_point_text(*profile)]);
    Ok(plain_request(spec))
}

/// `net use \\server\share /user:name * /persistent:no`.
pub open spec fn probe_args(p: Profile) -> Seq<Seq<char>> {
    seq![
        "use"@,
        unc_path_text(p),
        "/user:"@ + qualified_username_text(p, Platform::Windows),
        "*"@,
        "/persistent:no"@,
    ]
}

/// The command that tries the credentials on the share without mapping a
/// drive, the password on standard input.
pub fn probe_request(profile: &Profile, password: &str) -> (r: CommandRequest)
    ensures
        request_is(r, "net"@, probe_args(*profile), Some(password_line(password@)), Some(password@)),
{
    let user = qualified_username(profile, &Platform::Windows);
    let args = vec![
        owned("use"),
        windows_unc_path(profile),
        concat("/user:", user.as_str()),
        owned("*"),
        owned("/persistent:no"),
    ];
    let spec = CommandSpec { program: owned("net"), args };
    assert(texts(spec.args@) =~= probe_args(*profile));
    CommandRequest { spec, stdin: Some(concat(password, "\n")), secret: Some(owned(password)) }
}

/// The share probe logs in as the same user as the mount command: the
/// `/user:` argument is `domain\\user` when the domain is not blank, else the
/// bare user name, in both commands.
pub proof fn lemma_probe_logs_in_as_mount_user(p: Profile)
    ensures
        probe_args(p)[2] == mount_args(p)[3],
        trim_ws(p.domain@).len() != 0 ==> probe_args(p)[2] == "/user:"@ + p.domain@ + "\\"@ + p.username@,
        trim_ws(p.domain@).len() == 0 ==> probe_args(p)[2] == "/user:"@ + p.username@,
{
}

/// `net use \\server\share /delete /y`.
pub open spec fn probe_cleanup_args(p: Profile) -> Seq<Seq<char>> {
    seq!["use"@, unc_path_text(p), "/delete"@, "/y"@]
}

/// After a successful probe, the command that drops the connection it made.
pub fn probe_cleanup(profile: &Profile, outcome: &Result<String, MountMateError>) -> (r: Option<CommandRequest>)
    ensures
        outcome is Err ==> r is None,
        outcome is Ok ==> (r matches Some(q) && request_is(q, "net"@, probe_cleanup_args(*profile), None, None)),
{
    match outcome {
        Ok(_) => {
            let args = vec![owned("use"), windows_unc_path(profile), owned("/delete"), owned("/y")];
            let spec = CommandSpec { program: owned("net"), args };
            assert(texts(spec.args@) =~= probe_cleanup_args(*profile));
            Some(plain_request(spec))
        },
        Err(_) => None,
    }
}

/// The check that the probe's outcome gives: access when the command
/// succeeded, else its error.
pub fn probe_share(outcome: &Result<String, MountMateError>) -> (r: DiagnosticCheck)
    ensures
        match outcome {
            Ok(_) => check_is(r, "共享访问"@, CheckStatus::Pass, "认证通过，共享名可访问。"@),
            Err(e) => check_is(r, "共享访问"@, CheckStatus::Fail, error_text(*e)),
        },
{
    match outcome {
        Ok(_) => check("共享访问", CheckStatus::Pass, owned("认证通过，共享名可访问。")),
        Err(e) => check("共享访问", CheckStatus::Fail, e.message()),
    }
}

} // verus!
