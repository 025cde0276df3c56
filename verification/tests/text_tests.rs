use meshalert::text::parse_u32_str;
use meshalert::text::str_contains;
use meshalert::text::str_contains_ci;
use meshalert::text::str_eq;
use meshalert::text::trim_str;

#[test]
fn trim_removes_surrounding_whitespace() {
    assert_eq!(trim_str("  Tel Aviv \t\r\n"), "Tel Aviv");
    assert_eq!(trim_str("a  b"), "a  b");
    assert_eq!(trim_str("   "), "");
    assert_eq!(trim_str(""), "");
}

#[test]
fn substring_search() {
    assert!(str_contains("Test City - בדיקה", "בדיקה"));
    assert!(!str_contains("Tel Aviv", "בדיקה"));
    assert!(str_contains("anything", ""));
    assert!(!str_contains("ab", "abc"));
}

#[test]
fn case_insensitive_search() {
    assert!(str_contains_ci("missilesDrill", "drill"));
    assert!(str_contains_ci("TESTING", "test"));
    assert!(str_contains_ci("Drill", "DRILL"));
    assert!(!str_contains_ci("missiles", "drill"));
}

#[test]
fn string_equality() {
    assert!(str_eq("Dan", "Dan"));
    assert!(!str_eq("Dan", "Dan "));
    assert!(!str_eq("Dan", "dan"));
}

#[test]
fn numeral_parsing() {
    assert_eq!(parse_u32_str("0"), Some(0));
    assert_eq!(parse_u32_str("113"), Some(113));
    assert_eq!(parse_u32_str("007"), Some(7));
    assert_eq!(parse_u32_str("+42"), Some(42));
    assert_eq!(parse_u32_str("4294967295"), Some(u32::MAX));
    assert_eq!(parse_u32_str("4294967296"), None);
    assert_eq!(parse_u32_str("00000000000000004294967296"), None);
    assert_eq!(parse_u32_str(""), None);
    assert_eq!(parse_u32_str("+"), None);
    assert_eq!(parse_u32_str("-1"), None);
    assert_eq!(parse_u32_str("1 "), None);
    assert_eq!(parse_u32_str("1a"), None);
}
