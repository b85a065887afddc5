use ttbackend::decimal::{i64_to_string, parse_digits_u64, parse_i32, u64_to_string, u64_to_string_pad};
use ttbackend::graphql::hello::Hello;
use ttbackend::graphql::logs::Logs;
use ttbackend::graphql::world::World;

#[test]
fn test_u64_to_string() {
    assert_eq!(u64_to_string(0), "0");
    assert_eq!(u64_to_string(7), "7");
    assert_eq!(u64_to_string(42), "42");
    assert_eq!(u64_to_string(18446744073709551615), "18446744073709551615");
}

#[test]
fn test_i64_to_string() {
    assert_eq!(i64_to_string(0), "0");
    assert_eq!(i64_to_string(-5), "-5");
    assert_eq!(i64_to_string(2147483647), "2147483647");
    assert_eq!(i64_to_string(-9223372036854775808), "-9223372036854775808");
}

#[test]
fn test_u64_to_string_pad() {
    assert_eq!(u64_to_string_pad(7, 2), "07");
    assert_eq!(u64_to_string_pad(7, 4), "0007");
    assert_eq!(u64_to_string_pad(100, 2), "100");
    assert_eq!(u64_to_string_pad(0, 0), "0");
}

#[test]
fn test_parse_i32_accepts_canonical() {
    assert_eq!(parse_i32("0"), Some(0));
    assert_eq!(parse_i32("42"), Some(42));
    assert_eq!(parse_i32("-17"), Some(-17));
    assert_eq!(parse_i32("2147483647"), Some(2147483647));
    assert_eq!(parse_i32("-2147483648"), Some(-2147483648));
}

#[test]
fn test_parse_i32_rejects_non_canonical() {
    assert_eq!(parse_i32(""), None);
    assert_eq!(parse_i32("007"), None);
    assert_eq!(parse_i32("+5"), None);
    assert_eq!(parse_i32("-0"), None);
    assert_eq!(parse_i32("2147483648"), None);
    assert_eq!(parse_i32("-2147483649"), None);
    assert_eq!(parse_i32("12a"), None);
}

#[test]
fn test_parse_digits_u64() {
    assert_eq!(parse_digits_u64("0007"), Some(7));
    assert_eq!(parse_digits_u64("18446744073709551615"), Some(18446744073709551615));
    assert_eq!(parse_digits_u64("18446744073709551616"), None);
    assert_eq!(parse_digits_u64(""), None);
    assert_eq!(parse_digits_u64("-1"), None);
}

#[test]
fn test_schema_probes() {
    assert_eq!(Hello {}.hello(), "hello");
    assert_eq!(World {}.world(), "world");
    let logs = Logs {};
    assert_eq!(logs.info(String::from("message")), "message");
    assert_eq!(logs.error(String::from("oops")), "oops");
}
