use mountmate::errors::{classify_mount_error, command_result, redact_secret, MountMateError};

#[test]
fn mount_errors_are_classified() {
    let auth_error = classify_mount_error("The password is invalid");
    assert!(auth_error.contains("认证失败"));

    let share_error = classify_mount_error("The network name cannot be found");
    assert!(share_error.contains("共享名"));
}

#[test]
fn classification_keeps_the_trimmed_message() {
    assert_eq!(
        classify_mount_error("  System error 86: LOGON FAILURE \n"),
        "认证失败，请检查用户名、密码或 SMB 权限。原始错误：System error 86: LOGON FAILURE"
    );
    assert_eq!(
        classify_mount_error("bad network name"),
        "共享名可能错误，请检查 share 字段。原始错误：bad network name"
    );
    assert_eq!(classify_mount_error("  timeout  "), "timeout");
    // Credentials come first when both kinds of words appear.
    assert!(classify_mount_error("not found: access denied").starts_with("认证失败"));
    assert!(classify_mount_error("共享不存在").starts_with("共享名可能错误"));
}

#[test]
fn redacts_secret_from_errors() {
    assert_eq!(
        redact_secret("failed with secret-password", "secret-password"),
        "failed with [redacted]"
    );
}

#[test]
fn redaction_edge_cases() {
    assert_eq!(redact_secret("abc", ""), "abc");
    assert_eq!(redact_secret("aaaa", "aa"), "[redacted][redacted]");
    assert_eq!(redact_secret("aaa", "aa"), "[redacted]a");
    assert_eq!(redact_secret("pw pw", "pw"), "[redacted] [redacted]");
    let out = redact_secret("x-hunter2-hunter2-y", "hunter2");
    assert!(!out.contains("hunter2"));
}

#[test]
fn failed_commands_report_redacted_classified_text() {
    let ok = command_result(true, "done".to_string(), "warn".to_string(), Some("pw"));
    assert_eq!(ok.unwrap(), "done");

    let err = command_result(false, "out pw".to_string(), "  ".to_string(), Some("pw")).unwrap_err();
    match err {
        MountMateError::Process(m) => assert_eq!(m, "out [redacted]"),
        _ => panic!("expected a process error"),
    }

    let err = command_result(false, "out".to_string(), "Access is denied.".to_string(), None).unwrap_err();
    match err {
        MountMateError::Process(m) => {
            assert_eq!(m, "认证失败，请检查用户名、密码或 SMB 权限。原始错误：Access is denied.")
        }
        _ => panic!("expected a process error"),
    }
}

#[test]
fn error_messages_carry_their_prefix() {
    assert_eq!(MountMateError::Validation("x".to_string()).message(), "x");
    assert_eq!(MountMateError::Io("e".to_string()).message(), "配置文件读取失败：e");
    assert_eq!(MountMateError::Json("e".to_string()).message(), "JSON 解析失败：e");
    assert_eq!(MountMateError::Credential("e".to_string()).message(), "系统安全存储访问失败：e");
    assert_eq!(MountMateError::Process("e".to_string()).message(), "系统命令执行失败：e");
    assert_eq!(MountMateError::Unsupported("e".to_string()).message(), "当前平台暂不支持：e");
}

#[test]
fn redaction_hides_ordinary_passwords() {
    for secret in ["secret-password", "ted-x", "P@ss w0rd"] {
        let value = format!("net use failed for {secret} and {secret}{secret}");
        assert!(!redact_secret(&value, secret).contains(secret));
    }
    // A secret inside the marker's own word is the case the law leaves out.
    assert!(redact_secret("ted", "ted").contains("ted"));
}
