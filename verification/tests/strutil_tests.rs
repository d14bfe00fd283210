use syshealth::strutil::{
    is_digit, is_space, parse_i32, split_into_lines, split_whitespace_fields, str_contains,
    str_eq, str_starts_with, str_trim,
};

#[test]
fn whitespace_classification() {
    assert!(is_space(' '));
    assert!(is_space('\t'));
    assert!(is_space('\n'));
    assert!(is_space('\r'));
    assert!(!is_space('a'));
    assert!(is_digit('0'));
    assert!(is_digit('9'));
    assert!(!is_digit('a'));
}

#[test]
fn string_equality_and_prefix() {
    assert!(str_eq("abc", "abc"));
    assert!(!str_eq("abc", "abd"));
    assert!(!str_eq("abc", "ab"));
    assert!(str_starts_with("fuseblk", "fuse"));
    assert!(!str_starts_with("ext4", "fuse"));
    assert!(str_starts_with("abc", ""));
    assert!(!str_starts_with("ab", "abc"));
}

#[test]
fn substring_search() {
    assert!(str_contains("network-manager", "work"));
    assert!(str_contains("abc", ""));
    assert!(!str_contains("abc", "abd"));
    assert!(str_contains("aaab", "aab"));
    assert!(!str_contains("ab", "abc"));
}

#[test]
fn trimming() {
    assert_eq!(str_trim("  a b \n"), "a b");
    assert_eq!(str_trim("x86_pkg_temp\n"), "x86_pkg_temp");
    assert_eq!(str_trim(""), "");
    assert_eq!(str_trim(" \t\r\n"), "");
    assert_eq!(str_trim("abc"), "abc");
}

#[test]
fn whitespace_splitting() {
    assert_eq!(split_whitespace_fields("a b c"), vec!["a", "b", "c"]);
    assert_eq!(
        split_whitespace_fields("  /dev/sda1\t/  ext4  "),
        vec!["/dev/sda1", "/", "ext4"]
    );
    assert_eq!(split_whitespace_fields(""), Vec::<String>::new());
    assert_eq!(split_whitespace_fields("   "), Vec::<String>::new());
}

#[test]
fn line_splitting() {
    assert_eq!(split_into_lines("a\nb\n"), vec!["a", "b"]);
    assert_eq!(split_into_lines("a\n\nb"), vec!["a", "", "b"]);
    assert_eq!(split_into_lines(""), Vec::<String>::new());
    assert_eq!(split_into_lines("one line"), vec!["one line"]);
}

#[test]
fn integer_parsing_accepts() {
    assert_eq!(parse_i32("42"), Some(42));
    assert_eq!(parse_i32("+7"), Some(7));
    assert_eq!(parse_i32("-5"), Some(-5));
    assert_eq!(parse_i32("0"), Some(0));
    assert_eq!(parse_i32("007"), Some(7));
    assert_eq!(parse_i32("2147483647"), Some(i32::MAX));
    assert_eq!(parse_i32("-2147483648"), Some(i32::MIN));
}

#[test]
fn integer_parsing_rejects() {
    assert_eq!(parse_i32(""), None);
    assert_eq!(parse_i32("-"), None);
    assert_eq!(parse_i32("+"), None);
    assert_eq!(parse_i32("4 2"), None);
    assert_eq!(parse_i32(" 42"), None);
    assert_eq!(parse_i32("42a"), None);
    assert_eq!(parse_i32("2147483648"), None);
    assert_eq!(parse_i32("-2147483649"), None);
    assert_eq!(parse_i32("99999999999999999999"), None);
}

#[test]
fn integer_parsing_matches_std() {
    for s in [
        "0", "-1", "+1", "42", "-42", "2147483647", "-2147483648", "2147483648", "-2147483649",
        "", "x", "1x", "00123", "--1", "+-1",
    ] {
        assert_eq!(parse_i32(s), s.parse::<i32>().ok(), "input {:?}", s);
    }
}
