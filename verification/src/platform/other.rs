use vstd::prelude::*;

use crate::errors::{MountMateError, unsupported_error};
use crate::platform::{CheckStatus, DiagnosticCheck, check, check_is};
use crate::profile::Profile;
use crate::text::owned;

verus! {

/// Why nothing can be mounted on this platform.
pub open spec fn unsupported_text() -> Seq<char> {
    "v1 只支持 Windows 和 macOS。"@
}

/// `r` is the error for an unsupported platform.
pub open spec fn is_unsupported(r: Result<(), MountMateError>) -> bool {
    r matches Err(MountMateError::Unsupported(m)) && m@ == unsupported_text()
}

/// There is no mount point on this platform.
pub fn mount_point(_profile: &Profile) -> (r: String)
    ensures
        r@ == "unsupported"@,
{
    owned("unsupported")
}

/// Nothing is ever mounted on this platform.
pub fn is_mounted(_profile: &Profile) -> (r: bool)
    ensures
        !r,
{
    false
}

/// Nothing is ever mounted on this platform.
pub fn mounted_path(_profile: &Profile) -> (r: Option<String>)
    ensures
        r is None,
{
    None
}

/// Mounting is not supported here.
pub fn mount(_profile: &Profile, _password: &str) -> (r: Result<(), MountMateError>)
    ensures
        is_unsupported(r),
{
    Err(unsupported_error("v1 只支持 Windows 和 macOS。"))
}

/// Unmounting is not supported here.
pub fn unmount(_profile: &Profile) -> (r: Result<(), MountMateError>)
    ensures
        is_unsupported(r),
{
    Err(unsupported_error("v1 只支持 Windows 和 macOS。"))
}

/// Opening a mount is not supported here.
pub fn open_mount(_profile: &Profile) -> (r: Result<(), MountMateError>)
    ensures
        is_unsupported(r),
{
    Err(unsupported_error("v1 只支持 Windows 和 macOS。"))
}

/// Probing a share is not supported here: the check reports an error.
pub fn probe_share(_profile: &Profile, _password: &str) -> (r: DiagnosticCheck)
    ensures
        check_is(r, "共享访问"@, CheckStatus::Fail, unsupported_text()),
{
    check("共享访问", CheckStatus::Fail, owned("v1 只支持 Windows 和 macOS。"))
}

} // verus!
