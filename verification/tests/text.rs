use mountmate::text::{
    contains_str, eq_ignore_ascii_case, is_blank, replace, to_ascii_lowercase, trim, trim_end_matches,
    trim_matches, trim_start,
};

#[test]
fn trimming_follows_unicode_whitespace() {
    assert_eq!(trim("\u{3000} a b \u{a0}\n"), "a b");
    assert_eq!(trim_start("  a "), "a ");
    assert_eq!(trim_matches("//a/b//", '/'), "a/b");
    assert_eq!(trim_end_matches("z:::", ':'), "z");
    assert!(is_blank(" \t\r\n"));
    assert!(!is_blank(" x "));
}

#[test]
fn ascii_case_helpers() {
    assert_eq!(to_ascii_lowercase("ÄBC-x"), "Äbc-x");
    assert!(eq_ignore_ascii_case("Server01", "sERVER01"));
    assert!(!eq_ignore_ascii_case("a", "ab"));
    assert!(!eq_ignore_ascii_case("Ä", "ä"));
}

#[test]
fn searching_and_replacing() {
    assert!(contains_str("hello world", "o w"));
    assert!(contains_str("abc", ""));
    assert!(!contains_str("ab", "abc"));
    assert_eq!(replace("a.b.c", ".", "::"), "a::b::c");
}
