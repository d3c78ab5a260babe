use mountmate::naming::{
    applescript_escape, credential_key, mac_smb_url, percent_encode_segment, qualified_username,
    windows_drive_mount, windows_unc_path,
};
use mountmate::platform::Platform;
use mountmate::profile::{ImportConfig, Profile};

fn sample_import() -> ImportConfig {
    ImportConfig {
        schema_version: 1,
        display_name: "CompanyDisk".to_string(),
        server: "192.168.77.174".to_string(),
        share: "CompanyDisk".to_string(),
        domain: "".to_string(),
        username: "yaoyelan".to_string(),
        password: "secret-password".to_string(),
        default_drive_letter: "Z".to_string(),
        mount_name: "CompanyDisk".to_string(),
    }
}

fn with_domain(domain: &str) -> Profile {
    let (mut p, _) = sample_import().into_profile().unwrap();
    p.domain = domain.to_string();
    p
}

#[test]
fn builds_platform_paths() {
    let (profile, _) = sample_import().into_profile().unwrap();
    assert_eq!(windows_unc_path(&profile), r"\\192.168.77.174\CompanyDisk");
    assert_eq!(mac_smb_url(&profile), "smb://192.168.77.174/CompanyDisk");
}

#[test]
fn credential_key_is_stable() {
    let (profile, _) = sample_import().into_profile().unwrap();
    assert_eq!(credential_key(&profile), "192.168.77.174|CompanyDisk||yaoyelan");
}

#[test]
fn credential_key_ignores_other_fields() {
    let (a, _) = sample_import().into_profile().unwrap();
    let mut b = Profile { display_name: "Else".to_string(), ..with_domain("") };
    b.mount_name = "Other".to_string();
    assert_eq!(credential_key(&a), credential_key(&b));
}

#[test]
fn usernames_are_qualified_per_platform() {
    let bare = with_domain("  ");
    assert_eq!(qualified_username(&bare, &Platform::MacOs), "yaoyelan");
    let corp = with_domain("CORP");
    assert_eq!(qualified_username(&corp, &Platform::MacOs), "CORP;yaoyelan");
    assert_eq!(qualified_username(&corp, &Platform::Windows), r"CORP\yaoyelan");
    assert_eq!(qualified_username(&corp, &Platform::Other), r"CORP\yaoyelan");
}

#[test]
fn drive_mount_has_a_colon() {
    assert_eq!(windows_drive_mount(&with_domain("")), "Z:");
}

#[test]
fn segments_are_percent_encoded() {
    assert_eq!(percent_encode_segment("AZaz09-_.~"), "AZaz09-_.~");
    assert_eq!(percent_encode_segment("a b/c"), "a%20b%2Fc");
    assert_eq!(percent_encode_segment("共享"), "%E5%85%B1%E4%BA%AB");
    assert!(!percent_encode_segment("x/y/z").contains('/'));
    let mut p = with_domain("");
    p.share = "Team Docs".to_string();
    assert_eq!(mac_smb_url(&p), "smb://192.168.77.174/Team%20Docs");
}

#[test]
fn applescript_strings_are_escaped() {
    assert_eq!(applescript_escape(r#"a"b\c"#), r#"a\"b\\c"#);
    assert_eq!(applescript_escape("plain"), "plain");
    assert_eq!(applescript_escape(r#"\""#), r#"\\\""#);
}

fn percent_decode(s: &str) -> Vec<u8> {
    let b = s.as_bytes();
    let mut out = Vec::new();
    let mut i = 0;
    while i < b.len() {
        if b[i] == b'%' {
            out.push(u8::from_str_radix(&s[i + 1..i + 3], 16).unwrap());
            i += 3;
        } else {
            out.push(b[i]);
            i += 1;
        }
    }
    out
}

#[test]
fn percent_encoding_decodes_back() {
    for value in ["Team Docs", "a/b%c", "共享 盘", "~-_.", ""] {
        let encoded = percent_encode_segment(value);
        assert!(encoded.bytes().all(|b| b.is_ascii_alphanumeric() || b"-_.~%".contains(&b)));
        assert_eq!(percent_decode(&encoded), value.as_bytes());
    }
}

#[test]
fn credential_keys_tell_accounts_apart() {
    let a = with_domain("CORP");
    let mut b = with_domain("CORP");
    b.share = "Other".to_string();
    assert_ne!(credential_key(&a), credential_key(&b));
    let mut c = with_domain("");
    c.username = "CORP|yaoyelan".to_string();
    assert_ne!(credential_key(&a), credential_key(&c));
}
