use meclipboard::text::{bool_string, decimal_string, parse_bool, parse_u32, same_text};

#[test]
fn decimal_spelling() {
    assert_eq!(decimal_string(0), "0");
    assert_eq!(decimal_string(7), "7");
    assert_eq!(decimal_string(10), "10");
    assert_eq!(decimal_string(500), "500");
    assert_eq!(decimal_string(4294967295), "4294967295");
    assert_eq!(decimal_string(u64::MAX), u64::MAX.to_string());
}

#[test]
fn u32_parsing_matches_std() {
    let cases = ["0", "30", "+30", "007", "4294967295", "4294967296", "", "+", "-1", "-0", " 5", "5 ", "5a", "99999999999999999999", "++1"];
    for c in cases {
        assert_eq!(parse_u32(c), c.parse::<u32>().ok(), "input {:?}", c);
    }
    assert_eq!(parse_u32("+30"), Some(30));
    assert_eq!(parse_u32("4294967296"), None);
}

#[test]
fn u32_text_round_trip_samples() {
    for x in [0u32, 1, 9, 10, 30, 500, 65535, 4294967295] {
        assert_eq!(parse_u32(&decimal_string(x as u64)), Some(x));
    }
}

#[test]
fn bool_text_round_trip() {
    assert_eq!(bool_string(true), "true");
    assert_eq!(bool_string(false), "false");
    assert_eq!(parse_bool("true"), Some(true));
    assert_eq!(parse_bool("false"), Some(false));
    assert_eq!(parse_bool("True"), None);
    assert_eq!(parse_bool("1"), None);
    assert_eq!(parse_bool(""), None);
}

#[test]
fn text_comparison() {
    assert!(same_text("abc", "abc"));
    assert!(!same_text("abc", "abd"));
    assert!(!same_text("abc", "ab"));
    assert!(same_text("", ""));
    assert!(same_text("条目", "条目"));
}
