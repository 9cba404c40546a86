use mbtiles::parsing::{float_entries, is_float_literal, parse_u32, split_commas};

#[test]
fn parse_u32_plain_digits() {
    assert_eq!(parse_u32("0"), Some(0));
    assert_eq!(parse_u32("5"), Some(5));
    assert_eq!(parse_u32("14"), Some(14));
    assert_eq!(parse_u32("007"), Some(7));
}

#[test]
fn parse_u32_allows_leading_plus() {
    assert_eq!(parse_u32("+7"), Some(7));
}

#[test]
fn parse_u32_rejects_malformed() {
    assert_eq!(parse_u32(""), None);
    assert_eq!(parse_u32("+"), None);
    assert_eq!(parse_u32("-1"), None);
    assert_eq!(parse_u32("12a"), None);
    assert_eq!(parse_u32("1 "), None);
    assert_eq!(parse_u32("1.0"), None);
}

#[test]
fn parse_u32_range_limits() {
    assert_eq!(parse_u32("4294967295"), Some(u32::MAX));
    assert_eq!(parse_u32("4294967296"), None);
    assert_eq!(parse_u32("99999999999999999999"), None);
}

#[test]
fn float_literal_numbers() {
    assert!(is_float_literal("1"));
    assert!(is_float_literal("2.5"));
    assert!(is_float_literal("-3.5"));
    assert!(is_float_literal("+4."));
    assert!(is_float_literal(".5"));
    assert!(is_float_literal("1e5"));
    assert!(is_float_literal("-1.25e-3"));
    assert!(is_float_literal("1.E2"));
}

#[test]
fn float_literal_special_words() {
    assert!(is_float_literal("inf"));
    assert!(is_float_literal("-inf"));
    assert!(is_float_literal("Infinity"));
    assert!(is_float_literal("NaN"));
    assert!(is_float_literal("nan"));
}

#[test]
fn float_literal_rejects_malformed() {
    assert!(!is_float_literal(""));
    assert!(!is_float_literal("bad"));
    assert!(!is_float_literal("."));
    assert!(!is_float_literal("1.2.3"));
    assert!(!is_float_literal("1e"));
    assert!(!is_float_literal("1e+"));
    assert!(!is_float_literal(" 1"));
    assert!(!is_float_literal("1,2"));
    assert!(!is_float_literal("--1"));
}

#[test]
fn split_commas_pieces() {
    assert_eq!(split_commas("1,2,bad,4"), vec!["1", "2", "bad", "4"]);
    assert_eq!(split_commas(""), vec![""]);
    assert_eq!(split_commas("a,"), vec!["a", ""]);
    assert_eq!(split_commas(",a"), vec!["", "a"]);
    assert_eq!(split_commas("solo"), vec!["solo"]);
}

#[test]
fn float_entries_drop_non_numeric() {
    assert_eq!(float_entries("1,2,bad,4"), vec!["1", "2", "4"]);
    assert_eq!(float_entries("-180,-85,180,85"), vec!["-180", "-85", "180", "85"]);
    assert_eq!(float_entries("x,y"), Vec::<String>::new());
    assert_eq!(float_entries(""), Vec::<String>::new());
}
