use mountmate::errors::MountMateError;
use mountmate::platform::{macos, mount_point_for, other, windows, CheckStatus, Platform};
use mountmate::profile::Profile;

fn profile(share: &str, mount_name: &str) -> Profile {
    Profile {
        id: "id".to_string(),
        display_name: "Disk".to_string(),
        server: "srv".to_string(),
        share: share.to_string(),
        domain: "".to_string(),
        username: "bob".to_string(),
        default_drive_letter: "Z".to_string(),
        mount_name: mount_name.to_string(),
    }
}

fn args(v: &[String]) -> Vec<&str> {
    v.iter().map(|s| s.as_str()).collect()
}

#[test]
fn mount_points_per_platform() {
    let p = profile("Docs", "Team");
    assert_eq!(macos::mount_point(&p), "/Volumes/Team");
    assert_eq!(windows::mount_point(&p), "Z:\\");
    assert_eq!(other::mount_point(&p), "unsupported");
    assert_eq!(mount_point_for(&Platform::MacOs, &p), "/Volumes/Team");
    assert_eq!(mount_point_for(&Platform::Windows, &p), "Z:\\");
}

#[test]
fn mac_candidates_skip_the_same_path() {
    assert_eq!(macos::candidate_mount_paths(&profile("Docs", "Team")), vec!["/Volumes/Team", "/Volumes/Docs"]);
    assert_eq!(macos::candidate_mount_paths(&profile("Docs", "Docs")), vec!["/Volumes/Docs"]);
    // Paths compare by components, so a trailing separator names the same path.
    assert_eq!(macos::candidate_mount_paths(&profile("Docs/", "Docs")), vec!["/Volumes/Docs"]);
}

#[test]
fn mac_mounted_path_needs_existence_and_mount_listing() {
    let p = profile("Docs", "Team");
    let listing = "//bob@srv/Docs on /Volumes/Docs (smbfs)";
    assert_eq!(macos::mounted_path(&p, &vec![true, true], Some(listing)), Some("/Volumes/Docs".to_string()));
    assert_eq!(macos::mounted_path(&p, &vec![true, false], Some(listing)), None);
    assert_eq!(macos::mounted_path(&p, &vec![true, true], None), Some("/Volumes/Team".to_string()));
    assert_eq!(macos::mounted_path(&p, &vec![], None), None);
    assert!(macos::is_mounted(&p, &vec![false, true], Some(listing)));
    assert!(!macos::is_mounted(&p, &vec![true, false], Some(listing)));
    assert!(macos::mount_output_contains("/Volumes/Docs", Some(listing), false));
    assert!(!macos::mount_output_contains("/Volumes/Team", Some(listing), true));
    assert!(macos::mount_output_contains("/Volumes/Team", None, true));
}

#[test]
fn mac_mount_sends_an_escaped_script() {
    let mut p = profile("Team Docs", "Team");
    p.domain = "CORP".to_string();
    assert!(macos::mount(&p, "pw", true).is_none());
    let q = macos::mount(&p, "p\"w", false).unwrap();
    assert_eq!(q.spec.program, "osascript");
    assert_eq!(args(&q.spec.args), vec!["-"]);
    assert_eq!(
        q.stdin.unwrap(),
        "mount volume \"smb://srv/Team%20Docs\" as user name \"CORP;bob\" with password \"p\\\"w\"\n"
    );
    assert_eq!(q.secret.unwrap(), "p\"w");
    assert!(macos::confirm_mount(true).is_ok());
    match macos::confirm_mount(false) {
        Err(MountMateError::Process(m)) => assert_eq!(m, "系统命令已返回成功，但未检测到挂载目录。"),
        _ => panic!("expected a process error"),
    }
}

#[test]
fn mac_unmount_and_open() {
    let p = profile("Docs", "Team");
    let cmds = macos::unmount(&p, &vec![false, true]);
    assert_eq!(cmds.len(), 1);
    assert_eq!(cmds[0].spec.program, "diskutil");
    assert_eq!(args(&cmds[0].spec.args), vec!["unmount", "/Volumes/Docs"]);
    assert!(macos::unmount(&p, &vec![]).is_empty());
    assert!(macos::confirm_unmount(true, false).is_ok());
    assert!(macos::confirm_unmount(false, true).is_ok());
    assert!(macos::confirm_unmount(true, true).is_err());

    assert_eq!(macos::open_target(&p, None), "/Volumes/Team");
    assert_eq!(macos::open_target(&p, Some("/Volumes/Docs".to_string())), "/Volumes/Docs");
    let q = macos::open_mount("/Volumes/Docs".to_string(), true).unwrap();
    assert_eq!(q.spec.program, "open");
    assert_eq!(args(&q.spec.args), vec!["/Volumes/Docs"]);
    assert!(macos::open_mount("/Volumes/Docs".to_string(), false).is_err());
}

#[test]
fn mac_probe_does_not_probe() {
    assert!(matches!(macos::probe_share(true).status, CheckStatus::Pass));
    let c = macos::probe_share(false);
    assert!(matches!(c.status, CheckStatus::Warn));
    assert_eq!(c.name, "共享访问");
}

#[test]
fn windows_mount_keeps_the_password_on_stdin() {
    let mut p = profile("Docs", "Docs");
    p.domain = "CORP".to_string();
    let spec = windows::windows_mount_command(&p);
    assert_eq!(spec.program, "net");
    assert_eq!(args(&spec.args), vec!["use", "Z:", r"\\srv\Docs", r"/user:CORP\bob", "*", "/persistent:yes"]);
    let q = windows::mount(&p, "s3cret", false).unwrap();
    assert_eq!(q.stdin.unwrap(), "s3cret\n");
    assert_eq!(q.secret.unwrap(), "s3cret");
    assert!(q.spec.args.iter().all(|a| !a.contains("s3cret")));
    assert!(windows::mount(&p, "s3cret", true).is_none());
}

#[test]
fn windows_unmount_open_and_probe() {
    let p = profile("Docs", "Docs");
    assert!(windows::unmount(&p, false).is_none());
    let q = windows::unmount(&p, true).unwrap();
    assert_eq!(args(&q.spec.args), vec!["use", "Z:", "/delete", "/y"]);
    assert_eq!(windows::mounted_path(&p, true), Some("Z:\\".to_string()));
    assert_eq!(windows::mounted_path(&p, false), None);
    let open = windows::open_mount(&p, true).unwrap();
    assert_eq!(open.spec.program, "explorer.exe");
    assert_eq!(args(&open.spec.args), vec!["Z:\\"]);
    assert!(windows::open_mount(&p, false).is_err());

    let probe = windows::probe_request(&p, "pw");
    assert_eq!(args(&probe.spec.args), vec!["use", r"\\srv\Docs", "/user:bob", "*", "/persistent:no"]);
    assert_eq!(probe.stdin.unwrap(), "pw\n");
    let ok: Result<String, MountMateError> = Ok(String::new());
    let cleanup = windows::probe_cleanup(&p, &ok).unwrap();
    assert_eq!(args(&cleanup.spec.args), vec!["use", r"\\srv\Docs", "/delete", "/y"]);
    assert!(matches!(windows::probe_share(&ok).status, CheckStatus::Pass));
    let failed: Result<String, MountMateError> = Err(MountMateError::Process("boom".to_string()));
    assert!(windows::probe_cleanup(&p, &failed).is_none());
    let c = windows::probe_share(&failed);
    assert!(matches!(c.status, CheckStatus::Fail));
    assert_eq!(c.message, "系统命令执行失败：boom");
}

#[test]
fn other_platforms_are_unsupported() {
    let p = profile("Docs", "Docs");
    assert!(!other::is_mounted(&p));
    assert!(other::mounted_path(&p).is_none());
    for r in [other::mount(&p, "pw"), other::unmount(&p), other::open_mount(&p)] {
        match r {
            Err(MountMateError::Unsupported(m)) => assert_eq!(m, "v1 只支持 Windows 和 macOS。"),
            _ => panic!("expected an unsupported error"),
        }
    }
    let c = other::probe_share(&p, "pw");
    assert!(matches!(c.status, CheckStatus::Fail));
    assert_eq!(c.message, "v1 只支持 Windows 和 macOS。");
}
