use mountmate::benchmark::{
    benchmark_dir_name, benchmark_dir_name_for, benchmark_plan, benchmark_target, check_read_length, small_file_name,
};
use mountmate::diagnostics::{
    decimal, profile_to_view, profiles_to_views, resolve_failure_message, test_connection, unreachable_message,
};
use mountmate::errors::MountMateError;
use mountmate::platform::{CheckStatus, DiagnosticCheck, Platform};
use mountmate::profile::Profile;

fn profile() -> Profile {
    Profile {
        id: "id-1".to_string(),
        display_name: "Disk".to_string(),
        server: "srv".to_string(),
        share: "Docs".to_string(),
        domain: "".to_string(),
        username: "bob".to_string(),
        default_drive_letter: "Z".to_string(),
        mount_name: "Docs".to_string(),
    }
}

#[test]
fn views_show_urls_and_mount_state() {
    let v = profile_to_view(&profile(), &Platform::MacOs, true);
    assert_eq!(v.smb_url, "smb://srv/Docs");
    assert_eq!(v.unc_path, r"\\srv\Docs");
    assert_eq!(v.mount_point, "/Volumes/Docs");
    assert!(v.is_mounted);
    assert!(v.has_password);
    let views = profiles_to_views(&vec![profile(), profile()], &Platform::Windows, &vec![true]);
    assert_eq!(views.len(), 2);
    assert!(views[0].is_mounted);
    assert!(!views[1].is_mounted);
    assert_eq!(views[1].mount_point, "Z:\\");
}

#[test]
fn decimals() {
    assert_eq!(decimal(0), "0");
    assert_eq!(decimal(7), "7");
    assert_eq!(decimal(1205), "1205");
    assert_eq!(decimal(u128::MAX), u128::MAX.to_string());
}

#[test]
fn healthy_connection_has_no_suggestions() {
    let probe = DiagnosticCheck { name: "共享访问".to_string(), status: CheckStatus::Pass, message: "ok".to_string() };
    let r = test_connection(&profile(), &Platform::MacOs, Ok(12), Ok(probe), true);
    assert_eq!(r.checks.len(), 4);
    assert_eq!(r.checks[0].message, "srv:445 可连接，耗时 12 ms");
    assert_eq!(r.checks[1].message, "密码已保存在系统安全存储。");
    assert_eq!(r.checks[2].message, "ok");
    assert_eq!(r.checks[3].message, "已挂载：/Volumes/Docs");
    assert!(r.suggestions.is_empty());
    assert!(r.profile.is_mounted);
}

#[test]
fn failing_connection_collects_suggestions() {
    let r = test_connection(
        &profile(),
        &Platform::Windows,
        Err("srv:445 不可达或超时。".to_string()),
        Err(MountMateError::Credential("no entry".to_string())),
        false,
    );
    assert_eq!(r.checks.len(), 3);
    assert!(matches!(r.checks[0].status, CheckStatus::Fail));
    assert_eq!(r.checks[1].message, "系统安全存储访问失败：no entry");
    assert!(matches!(r.checks[2].status, CheckStatus::Warn));
    assert_eq!(r.suggestions.len(), 3);
    assert!(r.suggestions[0].contains("TCP 445"));
}

#[test]
fn port_messages() {
    assert_eq!(unreachable_message("srv"), "srv:445 不可达或超时。");
    assert_eq!(resolve_failure_message("srv", "boom"), "无法解析服务器地址 srv: boom");
}

#[test]
fn benchmark_helpers() {
    assert!(benchmark_target(false, Some("/x".to_string())).is_err());
    assert!(benchmark_target(true, None).is_err());
    assert_eq!(benchmark_target(true, Some("/x".to_string())).unwrap(), "/x");
    assert_eq!(small_file_name(7), "small-07.bin");
    assert_eq!(small_file_name(19), "small-19.bin");
    assert_eq!(small_file_name(0), "small-00.bin");
    assert_eq!(small_file_name(123), "small-123.bin");
    assert_eq!(benchmark_dir_name_for("abc"), ".mountmate-benchmark-abc");
    assert!(check_read_length(3, 3).is_ok());
    assert!(check_read_length(2, 3).is_err());
    let name = benchmark_dir_name().unwrap();
    assert!(name.starts_with(".mountmate-benchmark-"));
    assert_eq!(name.len(), ".mountmate-benchmark-".len() + 36);
}

#[test]
fn benchmark_plan_matches_the_measurement() {
    let plan = benchmark_plan();
    assert_eq!(plan.large_file_bytes, 8 * 1024 * 1024);
    assert_eq!(plan.large_fill, 0x5a);
    assert_eq!(plan.small_file_count, 20);
    assert_eq!(plan.small_file_bytes_each, 4096);
    assert_eq!(plan.small_fill, 0x33);
}
