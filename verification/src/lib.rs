//! MountMate's logic: import packages and their validation, the profile
//! store, the names, paths and commands used to mount an SMB share on each
//! platform, the explanation and redaction of command failures, and the
//! assembly of diagnoses. The logic is verified with Verus. Three small
//! wrappers are trusted rather than proved: `text::push_char` (std
//! `String::push`), `platform::macos::same_path` (std path comparison) and,
//! in `ids`, the calls to `getrandom::fill` and `uuid::Builder`. The desktop
//! shell in `app/` performs the I/O.

use vstd::prelude::*;

pub mod benchmark;
pub mod diagnostics;
pub mod errors;
pub mod ids;
pub mod naming;
pub mod platform;
pub mod profile;
pub mod text;
