use mountmate::errors::MountMateError;
use mountmate::profile::{
    default_drive_letter, import_profile, import_profile_with_id, is_inline_json, normalize_drive_letter, profile_by_id,
    sanitize_mount_name, upsert_profile, validate_required, ImportConfig, Profile, ProfileStore,
};

fn sample_import() -> ImportConfig {
    ImportConfig {
        schema_version: 1,
        display_name: "CompanyDisk".to_string(),
        server: "192.168.77.174".to_string(),
        share: "CompanyDisk".to_string(),
        domain: "".to_string(),
        username: "yaoyelan".to_string(),
        password: "secret-password".to_string(),
        default_drive_letter: "Z".to_string(),
        mount_name: "CompanyDisk".to_string(),
    }
}

fn validation_text(e: MountMateError) -> String {
    match e {
        MountMateError::Validation(m) => m,
        _ => panic!("expected a validation error"),
    }
}

#[test]
fn parses_and_validates_import_config() {
    let (profile, password) = sample_import().into_profile().unwrap();
    assert_eq!(profile.display_name, "CompanyDisk");
    assert_eq!(profile.server, "192.168.77.174");
    assert_eq!(profile.share, "CompanyDisk");
    assert_eq!(profile.default_drive_letter, "Z");
    assert_eq!(password, "secret-password");
}

#[test]
fn import_trims_and_normalizes_fields() {
    let mut config = sample_import();
    config.display_name = "  Company  ".to_string();
    config.server = "\tfiles.local ".to_string();
    config.share = " /Team/Docs/ ".to_string();
    config.domain = " CORP ".to_string();
    config.username = " alice\n".to_string();
    config.default_drive_letter = " y:: ".to_string();
    config.mount_name = "   ".to_string();
    let (profile, _) = config.into_profile_with_id("fixed-id".to_string()).unwrap();
    assert_eq!(profile.id, "fixed-id");
    assert_eq!(profile.display_name, "Company");
    assert_eq!(profile.server, "files.local");
    assert_eq!(profile.share, "Team/Docs");
    assert_eq!(profile.domain, "CORP");
    assert_eq!(profile.username, "alice");
    assert_eq!(profile.default_drive_letter, "Y");
    // A blank mount name falls back to the trimmed share, slashes kept.
    assert_eq!(profile.mount_name, "/Team/Docs/");
}

#[test]
fn import_gives_a_random_uuid_id() {
    let (a, _) = sample_import().into_profile().unwrap();
    let (b, _) = sample_import().into_profile().unwrap();
    assert_eq!(a.id.len(), 36);
    assert_eq!(a.id.chars().nth(14), Some('4'));
    for (i, c) in a.id.chars().enumerate() {
        if i == 8 || i == 13 || i == 18 || i == 23 {
            assert_eq!(c, '-');
        } else {
            assert!(c.is_ascii_digit() || ('a'..='f').contains(&c));
        }
    }
    assert_ne!(a.id, b.id);
}

#[test]
fn import_refuses_wrong_schema_version() {
    let mut config = sample_import();
    config.schema_version = 2;
    let e = config.into_profile().unwrap_err();
    assert_eq!(validation_text(e), "schemaVersion 目前只支持 1。");
}

#[test]
fn import_refuses_blank_required_fields_in_order() {
    let mut config = sample_import();
    config.server = "  ".to_string();
    config.username = "".to_string();
    let e = config.into_profile().unwrap_err();
    assert_eq!(validation_text(e), "server 不能为空。");
}

#[test]
fn import_refuses_bad_mount_name() {
    let mut config = sample_import();
    config.mount_name = "a/b".to_string();
    let e = config.into_profile().unwrap_err();
    assert_eq!(validation_text(e), "mountName 不能包含 /、: 或空字符。");
}

#[test]
fn import_profile_refuses_missing_password() {
    let mut config = sample_import();
    config.password = "  ".to_string();
    let e = import_profile(config).unwrap_err();
    assert_eq!(validation_text(e), "配置包缺少 password，无法完成一键挂载。");
    let (_, pw) = import_profile(sample_import()).unwrap();
    assert_eq!(pw, "secret-password");
}

#[test]
fn password_does_not_change_the_profile() {
    let mut other = sample_import();
    other.password = "another".to_string();
    let (a, pa) = sample_import().into_profile_with_id("id".to_string()).unwrap();
    let (b, pb) = other.into_profile_with_id("id".to_string()).unwrap();
    assert_eq!(a.display_name, b.display_name);
    assert_eq!(a.server, b.server);
    assert_eq!(a.share, b.share);
    assert_eq!(a.mount_name, b.mount_name);
    assert_ne!(pa, pb);
}

#[test]
fn drive_letters_are_normalized() {
    assert_eq!(normalize_drive_letter(" z: ").unwrap(), "Z");
    assert_eq!(normalize_drive_letter("Q").unwrap(), "Q");
    let once = normalize_drive_letter("m::").unwrap();
    assert_eq!(normalize_drive_letter(&once).unwrap(), once);
    assert_eq!(
        validation_text(normalize_drive_letter(" : ").unwrap_err()),
        "defaultDriveLetter 不能为空，例如 Z。"
    );
    assert_eq!(
        validation_text(normalize_drive_letter("ZZ").unwrap_err()),
        "defaultDriveLetter 必须是单个英文字母，例如 Z。"
    );
    assert_eq!(
        validation_text(normalize_drive_letter("1").unwrap_err()),
        "defaultDriveLetter 必须是单个英文字母，例如 Z。"
    );
    assert_eq!(default_drive_letter(), "Z");
}

#[test]
fn mount_names_are_sanitized() {
    assert_eq!(sanitize_mount_name("  Disk ").unwrap(), "Disk");
    let once = sanitize_mount_name(" Share Name ").unwrap();
    assert_eq!(sanitize_mount_name(&once).unwrap(), once);
    assert!(sanitize_mount_name("a:b").is_err());
    assert!(sanitize_mount_name("a\0b").is_err());
    assert!(sanitize_mount_name(" \t ").is_err());
}

#[test]
fn required_fields_are_checked() {
    assert!(validate_required("server", "x").is_ok());
    assert_eq!(
        validation_text(validate_required("share", " \u{3000} ").unwrap_err()),
        "share 不能为空。"
    );
}

#[test]
fn inline_json_is_recognized() {
    assert!(is_inline_json("  {\"schemaVersion\": 1}"));
    assert!(!is_inline_json("/home/me/pkg.json"));
    assert!(!is_inline_json("   "));
}

fn profile(id: &str, server: &str, share: &str, user: &str, name: &str) -> Profile {
    Profile {
        id: id.to_string(),
        display_name: name.to_string(),
        server: server.to_string(),
        share: share.to_string(),
        domain: "".to_string(),
        username: user.to_string(),
        default_drive_letter: "Z".to_string(),
        mount_name: share.to_string(),
    }
}

#[test]
fn upsert_replaces_same_account_keeping_its_id() {
    let mut store = ProfileStore::new();
    let first = upsert_profile(&mut store, profile("id-1", "Files", "Docs", "Bob", "old"));
    assert_eq!(first.id, "id-1");
    upsert_profile(&mut store, profile("id-2", "other", "Docs", "bob", "x"));
    let saved = upsert_profile(&mut store, profile("id-3", "FILES", "docs", "BOB", "new"));
    assert_eq!(saved.id, "id-1");
    assert_eq!(saved.display_name, "new");
    assert_eq!(store.profiles.len(), 2);
    assert_eq!(store.profiles[0].display_name, "new");
    assert_eq!(store.profiles[0].server, "FILES");
    assert_eq!(store.profiles[1].id, "id-2");
}

#[test]
fn upsert_twice_is_upsert_once() {
    let mut once = ProfileStore::new();
    upsert_profile(&mut once, profile("a", "s", "d", "u", "n"));
    upsert_profile(&mut once, profile("b", "t", "d", "u", "m"));
    let mut twice = ProfileStore::new();
    upsert_profile(&mut twice, profile("a", "s", "d", "u", "n"));
    upsert_profile(&mut twice, profile("b", "t", "d", "u", "m"));
    upsert_profile(&mut twice, profile("b", "t", "d", "u", "m"));
    assert_eq!(once.profiles.len(), twice.profiles.len());
    for (x, y) in once.profiles.iter().zip(twice.profiles.iter()) {
        assert_eq!(x.id, y.id);
        assert_eq!(x.display_name, y.display_name);
    }
}

#[test]
fn profiles_are_found_by_id() {
    let profiles = vec![profile("a", "s", "d", "u", "first"), profile("b", "s2", "d", "u", "second")];
    assert_eq!(profile_by_id(&profiles, &"b".to_string()).unwrap().display_name, "second");
    let e = profile_by_id(&profiles, &"c".to_string()).unwrap_err();
    assert_eq!(validation_text(e), "未找到该共享盘配置。");
}

#[test]
fn check_reports_the_first_failure() {
    assert!(sample_import().check().is_ok());
    let mut config = sample_import();
    config.default_drive_letter = "12".to_string();
    config.mount_name = "a:b".to_string();
    assert_eq!(
        validation_text(config.check().unwrap_err()),
        "defaultDriveLetter 必须是单个英文字母，例如 Z。"
    );
}

#[test]
fn fresh_ids_have_the_uuid_v4_shape() {
    let id = mountmate::ids::new_uuid().unwrap();
    assert_eq!(id.len(), 36);
    let chars: Vec<char> = id.chars().collect();
    assert_eq!(chars[14], '4');
    assert!(['8', '9', 'a', 'b'].contains(&chars[19]));
    assert_ne!(id, mountmate::ids::new_uuid().unwrap());
}

#[test]
fn randomness_errors_show_their_text() {
    let e = MountMateError::Randomness("could not retrieve random bytes for uuid: boom".to_string());
    assert_eq!(e.message(), "could not retrieve random bytes for uuid: boom");
}

#[test]
fn import_with_id_refuses_blank_password_and_keeps_the_id() {
    let mut config = sample_import();
    config.password = " \t".to_string();
    let e = import_profile_with_id(config, "id-1".to_string()).unwrap_err();
    assert_eq!(validation_text(e), "配置包缺少 password，无法完成一键挂载。");
    let (p, pw) = import_profile_with_id(sample_import(), "id-2".to_string()).unwrap();
    assert_eq!(p.id, "id-2");
    assert_eq!(pw, "secret-password");
    let mut bad = sample_import();
    bad.schema_version = 0;
    assert_eq!(validation_text(import_profile_with_id(bad, "x".to_string()).unwrap_err()), "schemaVersion 目前只支持 1。");
}
