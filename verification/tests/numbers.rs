use pms_slave::numfmt::{parse_i32, parse_secs_ms, parse_u64, seconds_arg, u64_to_string};

#[test]
fn renders_plain_decimals() {
    assert_eq!(u64_to_string(0), "0");
    assert_eq!(u64_to_string(7), "7");
    assert_eq!(u64_to_string(1048576), "1048576");
    assert_eq!(u64_to_string(u64::MAX), "18446744073709551615");
}

#[test]
fn renders_seconds_from_milliseconds() {
    assert_eq!(seconds_arg(2500), "2.5");
    assert_eq!(seconds_arg(2000), "2");
    assert_eq!(seconds_arg(2050), "2.05");
    assert_eq!(seconds_arg(1), "0.001");
    assert_eq!(seconds_arg(0), "0");
    assert_eq!(seconds_arg(5000), "5");
    assert_eq!(seconds_arg(1005), "1.005");
}

#[test]
fn parses_unsigned_decimals() {
    assert_eq!(parse_u64(b"0"), Some(0));
    assert_eq!(parse_u64(b"1048576"), Some(1048576));
    assert_eq!(parse_u64(b"18446744073709551615"), Some(u64::MAX));
    assert_eq!(parse_u64(b"18446744073709551616"), None);
    assert_eq!(parse_u64(b""), None);
    assert_eq!(parse_u64(b"12a"), None);
    assert_eq!(parse_u64(b"-3"), None);
    assert_eq!(parse_u64(b"+42"), Some(42));
    assert_eq!(parse_u64(b"+"), None);
}

#[test]
fn parses_signed_decimals() {
    assert_eq!(parse_i32(b"7"), Some(7));
    assert_eq!(parse_i32(b"-11"), Some(-11));
    assert_eq!(parse_i32(b"2147483647"), Some(i32::MAX));
    assert_eq!(parse_i32(b"-2147483648"), Some(i32::MIN));
    assert_eq!(parse_i32(b"2147483648"), None);
    assert_eq!(parse_i32(b"-"), None);
    assert_eq!(parse_i32(b""), None);
    assert_eq!(parse_i32(b"+7"), Some(7));
    assert_eq!(parse_i32(b"+"), None);
    assert_eq!(parse_i32(b"-+5"), None);
}

#[test]
fn parses_seconds_into_milliseconds() {
    assert_eq!(parse_secs_ms(b"0.123"), Some(123));
    assert_eq!(parse_secs_ms(b"1.5"), Some(1500));
    assert_eq!(parse_secs_ms(b"5"), Some(5000));
    assert_eq!(parse_secs_ms(b"1."), Some(1000));
    assert_eq!(parse_secs_ms(b".5"), Some(500));
    assert_eq!(parse_secs_ms(b"0.1239"), Some(123));
    assert_eq!(parse_secs_ms(b"+1.5"), Some(1500));
    assert_eq!(parse_secs_ms(b"."), None);
    assert_eq!(parse_secs_ms(b"+"), None);
    assert_eq!(parse_secs_ms(b"1.2.3"), None);
    assert_eq!(parse_secs_ms(b"abc"), None);
}

#[test]
fn exponent_and_signed_forms_are_outside_the_grammar() {
    assert_eq!(parse_secs_ms(b"1e3"), None);
    assert_eq!(parse_secs_ms(b"inf"), None);
    assert_eq!(parse_secs_ms(b"-1.5"), None);
}
