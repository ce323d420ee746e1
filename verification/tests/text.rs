use rate_limiter_rs::text::append_numeral;
use rate_limiter_rs::text::decimal_string;
use rate_limiter_rs::text::parse_u64;

#[test]
fn numbers_are_written_in_decimal() {
    assert_eq!(decimal_string(0), "0");
    assert_eq!(decimal_string(7), "7");
    assert_eq!(decimal_string(10), "10");
    assert_eq!(decimal_string(6379), "6379");
    assert_eq!(decimal_string(1674324083380245000), "1674324083380245000");
    assert_eq!(decimal_string(u64::MAX), "18446744073709551615");
}

#[test]
fn numbers_are_written_in_other_bases() {
    let mut out = String::from("x");
    append_numeral(&mut out, 16, 0);
    append_numeral(&mut out, 16, 0xdb8);
    append_numeral(&mut out, 16, 0xffff);
    append_numeral(&mut out, 2, 5);
    assert_eq!(out, "x0db8ffff101");
}

#[test]
fn decimal_numbers_are_read() {
    assert_eq!(parse_u64("0"), Some(0));
    assert_eq!(parse_u64("42"), Some(42));
    assert_eq!(parse_u64("007"), Some(7));
    assert_eq!(parse_u64("+15"), Some(15));
    assert_eq!(parse_u64("1674324083380245000"), Some(1674324083380245000));
    assert_eq!(parse_u64("18446744073709551615"), Some(u64::MAX));
}

#[test]
fn what_is_no_decimal_number_is_not_read() {
    assert_eq!(parse_u64(""), None);
    assert_eq!(parse_u64("+"), None);
    assert_eq!(parse_u64("-1"), None);
    assert_eq!(parse_u64("++1"), None);
    assert_eq!(parse_u64("1+"), None);
    assert_eq!(parse_u64("12a"), None);
    assert_eq!(parse_u64(" 12"), None);
    assert_eq!(parse_u64("1.5"), None);
    assert_eq!(parse_u64("١٢"), None);
    assert_eq!(parse_u64("18446744073709551616"), None);
    assert_eq!(parse_u64("99999999999999999999999"), None);
}

#[test]
fn reading_agrees_with_std() {
    for s in ["0", "1", "+0", "0012", "184467440737095516150", "x", "", "+", "-0", "12 "] {
        assert_eq!(parse_u64(s), s.parse::<u64>().ok());
    }
}

#[test]
fn reading_undoes_writing() {
    for n in [0u64, 1, 9, 10, 99, 100, 12345, u64::MAX - 1, u64::MAX] {
        assert_eq!(parse_u64(&decimal_string(n)), Some(n));
    }
}
