use torrentmanager::text::{
    concatenated, contains, decimal, ends_with, parse_decimal, replace_char_by, starts_with, str_eq,
    trim, trim_end_matches,
};

#[test]
fn trim_removes_unicode_white_space() {
    assert_eq!(trim("\u{a0} a b \t\n"), "a b");
    assert_eq!(trim("   "), "");
}

#[test]
fn parse_decimal_follows_std() {
    assert_eq!(parse_decimal("01", 255), Some(1));
    assert_eq!(parse_decimal("+7", 255), Some(7));
    assert_eq!(parse_decimal("255", 255), Some(255));
    assert_eq!(parse_decimal("256", 255), None);
    assert_eq!(parse_decimal("", 255), None);
    assert_eq!(parse_decimal("+", 255), None);
    assert_eq!(parse_decimal("-1", 255), None);
    assert_eq!(parse_decimal("1a", 255), None);
    assert_eq!(parse_decimal("65535", 65535), Some(65535));
}

#[test]
fn decimal_renders_numbers() {
    assert_eq!(decimal(0), "0");
    assert_eq!(decimal(1234567890), "1234567890");
    assert_eq!(decimal(u64::MAX), u64::MAX.to_string());
}

#[test]
fn trim_end_matches_removes_repetitions() {
    assert_eq!(trim_end_matches("abc.torrent.torrent", ".torrent"), "abc");
    assert_eq!(trim_end_matches("abc", ".torrent"), "abc");
}

#[test]
fn string_predicates() {
    assert!(starts_with("/home", "/"));
    assert!(!starts_with("home", "/"));
    assert!(ends_with("x.magnet", ".magnet"));
    assert!(contains("a/../b", "../"));
    assert!(!contains("a/./b", "../"));
    assert!(str_eq("abc", "abc"));
    assert!(!str_eq("abc", "abd"));
    assert_eq!(concatenated("ab", "cd"), "abcd");
}

#[test]
fn lowercase_is_unicode() {
    let id = torrentmanager::database::UploadID::torrent("ABCdef").ok().unwrap();
    assert_eq!(id.as_str(), "abcdef.torrent");
    let id = torrentmanager::database::UploadID::torrent("ÉTÉ").ok().unwrap();
    assert_eq!(id.as_str(), "été.torrent");
}

#[test]
fn replace_newlines() {
    assert_eq!(replace_char_by("a\nb\n", '\n', "<br>"), "a<br>b<br>");
}
