use query_engine::text::{parse_u64_or_zero, str_le, u64_to_dec};

#[test]
fn parse_plain_numerals() {
    assert_eq!(parse_u64_or_zero("0"), 0);
    assert_eq!(parse_u64_or_zero("123"), 123);
    assert_eq!(parse_u64_or_zero("0042"), 42);
    assert_eq!(parse_u64_or_zero("18446744073709551615"), u64::MAX);
}

#[test]
fn parse_accepts_leading_plus() {
    assert_eq!(parse_u64_or_zero("+5"), 5);
    assert_eq!(parse_u64_or_zero("+"), 0);
}

#[test]
fn parse_defaults_to_zero_on_bad_input() {
    assert_eq!(parse_u64_or_zero(""), 0);
    assert_eq!(parse_u64_or_zero("12x"), 0);
    assert_eq!(parse_u64_or_zero("-3"), 0);
    assert_eq!(parse_u64_or_zero(" 7"), 0);
    assert_eq!(parse_u64_or_zero("18446744073709551616"), 0);
    assert_eq!(parse_u64_or_zero("999999999999999999999999"), 0);
}

#[test]
fn decimal_rendering() {
    assert_eq!(u64_to_dec(0), "0");
    assert_eq!(u64_to_dec(7), "7");
    assert_eq!(u64_to_dec(12345), "12345");
    assert_eq!(u64_to_dec(u64::MAX), "18446744073709551615");
}

#[test]
fn string_order_is_lexicographic() {
    assert!(str_le("", "a"));
    assert!(str_le("abc", "abc"));
    assert!(str_le("abc", "abd"));
    assert!(!str_le("abd", "abc"));
    assert!(str_le("ab", "abc"));
    assert!(!str_le("abc", "ab"));
    assert!(str_le("2024-01-01", "2024-01-02"));
}
