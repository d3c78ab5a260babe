use vstd::prelude::*;

use crate::text::{
    ascii_lower, concat, contains, contains_str, occurs_at, is_blank, owned, replace, replace_all, to_ascii_lowercase,
    trim, trim_ws, lemma_replace_removes_pattern,
};

verus! {

/// The errors of the library, each with the text that describes it.
#[derive(Debug)]
pub enum MountMateError {
    /// An input that the rules refuse.
    Validation(String),
    /// Reading or writing the profile file failed.
    Io(String),
    /// The profile file or an import package is not valid JSON.
    Json(String),
    /// The system credential store could not be used.
    Credential(String),
    /// A system command failed.
    Process(String),
    /// The platform is not supported.
    Unsupported(String),
    /// The system's random source failed.
    Randomness(String),
}

/// The text shown for an error.
pub open spec fn error_text(e: MountMateError) -> Seq<char> {
    match e {
        MountMateError::Validation(m) => m@,
        MountMateError::Io(m) => "配置文件读取失败："@ + m@,
        MountMateError::Json(m) => "JSON 解析失败："@ + m@,
        MountMateError::Credential(m) => "系统安全存储访问失败："@ + m@,
        MountMateError::Process(m) => "系统命令执行失败："@ + m@,
        MountMateError::Unsupported(m) => "当前平台暂不支持："@ + m@,
        MountMateError::Randomness(m) => m@,
    }
}

impl MountMateError {
    /// The text shown for this error.
    pub fn message(&self) -> (r: String)
        ensures
            r@ == error_text(*self),
    {
        match self {
            MountMateError::Validation(m) => owned(m.as_str()),
            MountMateError::Io(m) => concat("配置文件读取失败：", m.as_str()),
            MountMateError::Json(m) => concat("JSON 解析失败：", m.as_str()),
            MountMateError::Credential(m) => concat("系统安全存储访问失败：", m.as_str()),
            MountMateError::Process(m) => concat("系统命令执行失败：", m.as_str()),
            MountMateError::Unsupported(m) => concat("当前平台暂不支持：", m.as_str()),
            MountMateError::Randomness(m) => owned(m.as_str()),
        }
    }
}

/// A result as the user interface receives it: the value, or the error's text.
pub fn to_command_result<T>(result: Result<T, MountMateError>) -> (r: Result<T, String>)
    ensures
        match result {
            Ok(v) => r == Ok::<T, String>(v),
            Err(e) => r matches Err(m) && m@ == error_text(e),
        },
{
    match result {
        Ok(v) => Ok(v),
        Err(e) => Err(e.message()),
    }
}

/// A validation error with the given text.
pub fn validation_error(text: &str) -> (e: MountMateError)
    ensures
        e matches MountMateError::Validation(m) && m@ == text@,
{
    MountMateError::Validation(owned(text))
}

/// A process error with the given text.
pub fn process_error(text: &str) -> (e: MountMateError)
    ensures
        e matches MountMateError::Process(m) && m@ == text@,
{
    MountMateError::Process(owned(text))
}

/// An unsupported-platform error with the given text.
pub fn unsupported_error(text: &str) -> (e: MountMateError)
    ensures
        e matches MountMateError::Unsupported(m) && m@ == text@,
{
    MountMateError::Unsupported(owned(text))
}

// ---------------------------------------------------------------------------
// Redaction
// ---------------------------------------------------------------------------

/// What stands in place of a secret in an error text.
pub open spec fn redaction_marker() -> Seq<char> {
    "[redacted]"@
}

/// `value` with every occurrence of `secret` replaced by the marker; an
/// empty secret changes nothing.
pub open spec fn redacted(value: Seq<char>, secret: Seq<char>) -> Seq<char> {
    if secret.len() == 0 {
        value
    } else {
        replace_all(value, secret, redaction_marker())
    }
}

/// Replaces each occurrence of `secret` in `value` by `[redacted]`.
pub fn redact_secret(value: &str, secret: &str) -> (r: String)
    ensures
        r@ == redacted(value@, secret@),
{
    if secret.is_empty() {
        owned(value)
    } else {
        replace(value, secret, "[redacted]")
    }
}

/// After redaction a non-empty secret no longer occurs in the text, provided
/// that it holds no `[` or `]` and is not part of the word `redacted`.
pub proof fn lemma_redaction_hides_secret(value: Seq<char>, secret: Seq<char>)
    requires
        secret.len() > 0,
        !secret.contains('['),
        !secret.contains(']'),
        !contains("redacted"@, secret),
    ensures
        !contains(redacted(value, secret), secret),
{
    reveal_strlit("[redacted]");
    reveal_strlit("redacted");
    let rep = redaction_marker();
    let inner = "redacted"@;
    assert(rep.len() == 10);
    assert(inner.len() == 8);
    assert forall|i: int| 0 <= i < secret.len() implies #[trigger] secret[i] != rep[0] by {
        if secret[i] == rep[0] {
            assert(secret.contains('['));
        }
    }
    assert forall|i: int| 0 <= i < secret.len() implies #[trigger] secret[i] != rep.last() by {
        if secret[i] == rep.last() {
            assert(secret.contains(']'));
        }
    }
    if contains(rep, secret) {
        let k = choose|k: int| occurs_at(rep, secret, k);
        let w = rep.subrange(k, k + secret.len());
        if k == 0 {
            assert(secret[0] == w[0]);
            assert(secret[0] == rep[0]);
        } else if k + secret.len() == rep.len() {
            assert(secret[secret.len() - 1] == w[secret.len() - 1]);
            assert(secret[secret.len() - 1] == rep.last());
        } else {
            assert(inner.subrange(k - 1, k - 1 + secret.len()) =~= w);
            assert(occurs_at(inner, secret, k - 1));
        }
    }
    lemma_replace_removes_pattern(value, secret, rep);
}

// ---------------------------------------------------------------------------
// Classifying the failure of a mount command
// ---------------------------------------------------------------------------

/// The message points at wrong credentials.
pub open spec fn is_auth_failure(message: Seq<char>) -> bool {
    let lower = ascii_lower(message);
    ||| contains(lower, "password"@)
    ||| contains(lower, "denied"@)
    ||| contains(lower, "auth"@)
    ||| contains(lower, "logon failure"@)
    ||| contains(message, "密码"@)
    ||| contains(message, "认证"@)
    ||| contains(message, "拒绝"@)
}

/// The message points at a wrong share name.
pub open spec fn is_missing_share(message: Seq<char>) -> bool {
    let lower = ascii_lower(message);
    ||| contains(lower, "not found"@)
    ||| contains(lower, "bad network name"@)
    ||| contains(lower, "cannot find"@)
    ||| contains(lower, "cannot be found"@)
    ||| contains(message, "不存在"@)
    ||| contains(message, "找不到"@)
}

pub open spec fn auth_failure_prefix() -> Seq<char> {
    "认证失败，请检查用户名、密码或 SMB 权限。原始错误："@
}

pub open spec fn missing_share_prefix() -> Seq<char> {
    "共享名可能错误，请检查 share 字段。原始错误："@
}

/// The explained form of a command's error message.
pub open spec fn classified(message: Seq<char>) -> Seq<char> {
    if is_auth_failure(message) {
        auth_failure_prefix() + trim_ws(message)
    } else if is_missing_share(message) {
        missing_share_prefix() + trim_ws(message)
    } else {
        trim_ws(message)
    }
}

/// Explains the error message of a failed mount command: wrong credentials,
/// a wrong share name, or the trimmed message as it is.
pub fn classify_mount_error(message: &str) -> (r: String)
    ensures
        r@ == classified(message@),
{
    let lower_string = to_ascii_lowercase(message);
    let lower = lower_string.as_str();
    let trimmed = trim(message);
    if contains_str(lower, "password") || contains_str(lower, "denied") || contains_str(lower, "auth")
        || contains_str(lower, "logon failure") || contains_str(message, "密码") || contains_str(
        message,
        "认证",
    ) || contains_str(message, "拒绝") {
        concat("认证失败，请检查用户名、密码或 SMB 权限。原始错误：", trimmed.as_str())
    } else if contains_str(lower, "not found") || contains_str(lower, "bad network name")
        || contains_str(lower, "cannot find") || contains_str(lower, "cannot be found")
        || contains_str(message, "不存在") || contains_str(message, "找不到") {
        concat("共享名可能错误，请检查 share 字段。原始错误：", trimmed.as_str())
    } else {
        trimmed
    }
}

/// A message with a word of failed credentials (`password`, `denied`,
/// `auth`, `logon failure` in any ASCII case, or 密码, 认证, 拒绝) is explained
/// as wrong credentials.
pub proof fn lemma_credential_words_explained(message: Seq<char>)
    requires
        contains(ascii_lower(message), "password"@) || contains(ascii_lower(message), "denied"@)
            || contains(ascii_lower(message), "auth"@) || contains(ascii_lower(message), "logon failure"@)
            || contains(message, "密码"@) || contains(message, "认证"@) || contains(message, "拒绝"@),
    ensures
        classified(message) == "认证失败，请检查用户名、密码或 SMB 权限。原始错误："@ + trim_ws(message),
{
}

/// A message with a word of a missing share (`not found`, `bad network
/// name`, `cannot find`, `cannot be found` in any ASCII case, or 不存在, 找不到)
/// and no word of failed credentials is explained as a wrong share name.
pub proof fn lemma_share_words_explained(message: Seq<char>)
    requires
        !contains(ascii_lower(message), "password"@),
        !contains(ascii_lower(message), "denied"@),
        !contains(ascii_lower(message), "auth"@),
        !contains(ascii_lower(message), "logon failure"@),
        !contains(message, "密码"@),
        !contains(message, "认证"@),
        !contains(message, "拒绝"@),
        contains(ascii_lower(message), "not found"@) || contains(ascii_lower(message), "bad network name"@)
            || contains(ascii_lower(message), "cannot find"@) || contains(ascii_lower(message), "cannot be found"@)
            || contains(message, "不存在"@) || contains(message, "找不到"@),
    ensures
        classified(message) == "共享名可能错误，请检查 share 字段。原始错误："@ + trim_ws(message),
{
}

/// A message with neither kind of word is kept as it is, trimmed.
pub proof fn lemma_other_messages_trimmed(message: Seq<char>)
    requires
        !contains(ascii_lower(message), "password"@),
        !contains(ascii_lower(message), "denied"@),
        !contains(ascii_lower(message), "auth"@),
        !contains(ascii_lower(message), "logon failure"@),
        !contains(message, "密码"@),
        !contains(message, "认证"@),
        !contains(message, "拒绝"@),
        !contains(ascii_lower(message), "not found"@),
        !contains(ascii_lower(message), "bad network name"@),
        !contains(ascii_lower(message), "cannot find"@),
        !contains(ascii_lower(message), "cannot be found"@),
        !contains(message, "不存在"@),
        !contains(message, "找不到"@),
    ensures
        classified(message) == trim_ws(message),
{
}

/// The text that a failed command reports: its standard error, or its
/// standard output when the standard error is blank.
pub open spec fn failure_text(stdout: Seq<char>, stderr: Seq<char>) -> Seq<char> {
    if trim_ws(stderr).len() == 0 {
        stdout
    } else {
        stderr
    }
}

/// What a finished command gives back: its output when it succeeded, or else
/// a process error with its failure text, redacted of the secret when there
/// is one, and explained.
pub fn command_result(success: bool, stdout: String, stderr: String, secret: Option<&str>) -> (r: Result<String, MountMateError>)
    ensures
        success ==> (r matches Ok(out) && out@ == stdout@),
        !success ==> (r matches Err(MountMateError::Process(m)) && m@ == classified(
            match secret {
                Some(s) => redacted(failure_text(stdout@, stderr@), s@),
                None => failure_text(stdout@, stderr@),
            },
        )),
{
    if success {
        return Ok(stdout);
    }
    let mut message = if is_blank(stderr.as_str()) {
        stdout
    } else {
        stderr
    };
    if let Some(s) = secret {
        message = redact_secret(message.as_str(), s);
    }
    Err(MountMateError::Process(classify_mount_error(message.as_str())))
}

} // verus!
