use cache_audit::text::{contains_str, parse_u64, starts_with_html};

#[test]
fn parses_plain_decimals() {
    assert_eq!(parse_u64("0"), Some(0));
    assert_eq!(parse_u64("42"), Some(42));
    assert_eq!(parse_u64("18446744073709551615"), Some(u64::MAX));
}

#[test]
fn rejects_empty_signs_and_junk() {
    assert_eq!(parse_u64(""), None);
    assert_eq!(parse_u64("+1"), None);
    assert_eq!(parse_u64("-1"), None);
    assert_eq!(parse_u64("12a"), None);
    assert_eq!(parse_u64(" 12"), None);
}

#[test]
fn rejects_values_past_u64() {
    assert_eq!(parse_u64("18446744073709551616"), None);
    assert_eq!(parse_u64("99999999999999999999999999"), None);
}

#[test]
fn leading_zeros_are_digits() {
    assert_eq!(parse_u64("007"), Some(7));
}

#[test]
fn substring_search() {
    assert!(contains_str("abcdef", "cde"));
    assert!(contains_str("abcdef", ""));
    assert!(contains_str("abcdef", "abcdef"));
    assert!(!contains_str("abcdef", "cdf"));
    assert!(!contains_str("ab", "abc"));
    assert!(contains_str("aaab", "aab"));
}

#[test]
fn html_prefix_detection() {
    assert!(starts_with_html("text/html"));
    assert!(starts_with_html("text/html; charset=utf-8"));
    assert!(!starts_with_html("text/htm"));
    assert!(!starts_with_html("application/pdf"));
    assert!(!starts_with_html(""));
}
