use maven_gateway::text::{format_integer, parse_integer, range_equals, Parsed};

#[test]
fn parses_plain_digits() {
    assert_eq!(parse_integer(b"0"), Parsed::Number(0));
    assert_eq!(parse_integer(b"5900000"), Parsed::Number(5900000));
    assert_eq!(parse_integer(b"0007"), Parsed::Number(7));
}

#[test]
fn parses_signs() {
    assert_eq!(parse_integer(b"+12"), Parsed::Number(12));
    assert_eq!(parse_integer(b"-12"), Parsed::Number(-12));
    assert_eq!(parse_integer(b"-0"), Parsed::Number(0));
}

#[test]
fn parses_the_ends_of_the_range() {
    assert_eq!(parse_integer(b"9223372036854775807"), Parsed::Number(i64::MAX));
    assert_eq!(parse_integer(b"-9223372036854775808"), Parsed::Number(i64::MIN));
}

#[test]
fn tells_numbers_out_of_range() {
    assert_eq!(parse_integer(b"9223372036854775808"), Parsed::TooLarge);
    assert_eq!(parse_integer(b"-9223372036854775809"), Parsed::TooSmall);
    assert_eq!(parse_integer(b"18446744073709551616"), Parsed::TooLarge);
    assert_eq!(parse_integer(b"99999999999999999999999999"), Parsed::TooLarge);
    assert_eq!(parse_integer(b"-99999999999999999999999999"), Parsed::TooSmall);
}

#[test]
fn rejects_what_is_no_number() {
    assert_eq!(parse_integer(b""), Parsed::Invalid);
    assert_eq!(parse_integer(b"+"), Parsed::Invalid);
    assert_eq!(parse_integer(b"-"), Parsed::Invalid);
    assert_eq!(parse_integer(b"12a"), Parsed::Invalid);
    assert_eq!(parse_integer(b" 12"), Parsed::Invalid);
    assert_eq!(parse_integer(b"1 2"), Parsed::Invalid);
    assert_eq!(parse_integer(b"--1"), Parsed::Invalid);
    assert_eq!(parse_integer(b"1.5"), Parsed::Invalid);
    assert_eq!(parse_integer(b"99999999999999999999999999x"), Parsed::Invalid);
}

#[test]
fn formats_integers_in_decimal() {
    assert_eq!(format_integer(0), "0");
    assert_eq!(format_integer(7), "7");
    assert_eq!(format_integer(10), "10");
    assert_eq!(format_integer(5900000), "5900000");
    assert_eq!(format_integer(-1), "-1");
    assert_eq!(format_integer(-120), "-120");
    assert_eq!(format_integer(i64::MAX), "9223372036854775807");
    assert_eq!(format_integer(i64::MIN), "-9223372036854775808");
}

#[test]
fn formatted_integers_parse_back() {
    for n in [0i64, 1, -1, 42, 1000, -5900000, i64::MAX, i64::MIN] {
        assert_eq!(parse_integer(format_integer(n).as_bytes()), Parsed::Number(n));
    }
}

#[test]
fn compares_a_range_of_bytes() {
    assert!(range_equals(b"user:pass", 0, 4, b"user"));
    assert!(range_equals(b"user:pass", 5, 9, b"pass"));
    assert!(!range_equals(b"user:pass", 0, 4, b"usex"));
    assert!(!range_equals(b"user:pass", 0, 4, b"use"));
    assert!(range_equals(b"user:pass", 3, 3, b""));
}
