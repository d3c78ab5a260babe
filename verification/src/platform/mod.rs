use vstd::prelude::*;

use crate::profile::Profile;
use crate::text::owned;

pub mod macos;
pub mod other;
pub mod windows;

verus! {

/// The operating system that the library builds commands and paths for.
#[derive(Debug)]
pub enum Platform {
    MacOs,
    Windows,
    Other,
}

/// A program and its arguments.
#[derive(Debug)]
pub struct CommandSpec {
    pub program: String,
    pub args: Vec<String>,
}

/// A command to run: what to run, what to write to its standard input, and
/// the secret to take out of what it reports on failure.
#[derive(Debug)]
pub struct CommandRequest {
    pub spec: CommandSpec,
    pub stdin: Option<String>,
    pub secret: Option<String>,
}

/// How a diagnostic check came out.
#[derive(Debug)]
pub enum CheckStatus {
    Pass,
    Warn,
    Fail,
}

/// One line of a diagnosis.
#[derive(Debug)]
pub struct DiagnosticCheck {
    pub name: String,
    pub status: CheckStatus,
    pub message: String,
}

/// The texts of a sequence of strings.
pub open spec fn texts(v: Seq<String>) -> Seq<Seq<char>> {
    v.map_values(|s: String| s@)
}

/// The text of an optional string.
pub open spec fn opt_text(o: Option<String>) -> Option<Seq<char>> {
    match o {
        Some(s) => Some(s@),
        None => None,
    }
}

/// `c` runs `program` with `args`.
pub open spec fn spec_is(c: CommandSpec, program: Seq<char>, args: Seq<Seq<char>>) -> bool {
    c.program@ == program && texts(c.args@) == args
}

/// `r` runs `program` with `args`, feeds it `stdin` and redacts `secret`.
pub open spec fn request_is(
    r: CommandRequest,
    program: Seq<char>,
    args: Seq<Seq<char>>,
    stdin: Option<Seq<char>>,
    secret: Option<Seq<char>>,
) -> bool {
    spec_is(r.spec, program, args) && opt_text(r.stdin) == stdin && opt_text(r.secret) == secret
}

/// `c` has the given name, status and message.
pub open spec fn check_is(c: DiagnosticCheck, name: Seq<char>, status: CheckStatus, message: Seq<char>) -> bool {
    c.name@ == name && c.status == status && c.message@ == message
}

/// A check with the given name, status and message.
pub fn check(name: &str, status: CheckStatus, message: String) -> (r: DiagnosticCheck)
    ensures
        check_is(r, name@, status, message@),
{
    DiagnosticCheck { name: owned(name), status, message }
}

/// A command without standard input or secret.
pub fn plain_request(spec: CommandSpec) -> (r: CommandRequest)
    ensures
        r.spec == spec,
        r.stdin is None,
        r.secret is None,
{
    CommandRequest { spec, stdin: None, secret: None }
}

/// Where the platform mounts a profile's share.
pub open spec fn mount_point_text(platform: Platform, p: Profile) -> Seq<char> {
    match platform {
        Platform::MacOs => macos::mount_point_text(p),
        Platform::Windows => windows::mount_point_text(p),
        Platform::Other => "unsupported"@,
    }
}

/// Where the platform mounts a profile's share.
pub fn mount_point_for(platform: &Platform, profile: &Profile) -> (r: String)
    ensures
        r@ == mount_point_text(*platform, *profile),
{
    match platform {
        Platform::MacOs => macos::mount_point(profile),
        Platform::Windows => windows::mount_point(profile),
        Platform::Other => other::mount_point(profile),
    }
}

} // verus!
