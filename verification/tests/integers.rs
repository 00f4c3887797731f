use mandelbrot::{parse_numeral, FromText};

#[test]
fn numerals_have_their_decimal_value() {
    assert_eq!(parse_numeral("0", u64::MAX), Some(0));
    assert_eq!(parse_numeral("7", u64::MAX), Some(7));
    assert_eq!(parse_numeral("10", u64::MAX), Some(10));
    assert_eq!(parse_numeral("1234567890", u64::MAX), Some(1234567890));
    assert_eq!(parse_numeral("18446744073709551615", u64::MAX), Some(u64::MAX));
}

#[test]
fn leading_zeros_change_nothing() {
    assert_eq!(parse_numeral("007", u64::MAX), Some(7));
    assert_eq!(parse_numeral("0000000000000000000000000000042", 42), Some(42));
    assert_eq!(i32::from_text("-0012"), Some(-12));
}

#[test]
fn numerals_stop_at_their_limit() {
    assert_eq!(parse_numeral("255", 255), Some(255));
    assert_eq!(parse_numeral("256", 255), None);
    assert_eq!(parse_numeral("0", 0), Some(0));
    assert_eq!(parse_numeral("1", 0), None);
    assert_eq!(parse_numeral("9", 8), None);
    assert_eq!(parse_numeral("18446744073709551616", u64::MAX), None);
    assert_eq!(parse_numeral("99999999999999999999999999999999", u64::MAX), None);
}

#[test]
fn numerals_hold_digits_only() {
    assert_eq!(parse_numeral("", u64::MAX), None);
    assert_eq!(parse_numeral("+1", u64::MAX), None);
    assert_eq!(parse_numeral("-1", u64::MAX), None);
    assert_eq!(parse_numeral("1 ", u64::MAX), None);
    assert_eq!(parse_numeral(" 1", u64::MAX), None);
    assert_eq!(parse_numeral("1_000", u64::MAX), None);
    assert_eq!(parse_numeral("1.0", u64::MAX), None);
    assert_eq!(parse_numeral("12a", u64::MAX), None);
    assert_eq!(parse_numeral("a12", u64::MAX), None);
    assert_eq!(parse_numeral("/", u64::MAX), None);
    assert_eq!(parse_numeral(":", u64::MAX), None);
    assert_eq!(parse_numeral("\u{663}", u64::MAX), None);
    assert_eq!(parse_numeral("\u{ff11}", u64::MAX), None);
    assert_eq!(parse_numeral("99999999999999999999999999999999x", u64::MAX), None);
}

#[test]
fn signed_integers_take_either_sign() {
    assert_eq!(i32::from_text("10"), Some(10));
    assert_eq!(i32::from_text("+10"), Some(10));
    assert_eq!(i32::from_text("-10"), Some(-10));
    assert_eq!(i32::from_text("-0"), Some(0));
    assert_eq!(i64::from_text("+0"), Some(0));
    assert_eq!(i64::from_text("-9000000000"), Some(-9000000000));
}

#[test]
fn unsigned_integers_take_no_minus() {
    assert_eq!(u64::from_text("10"), Some(10));
    assert_eq!(u64::from_text("+10"), Some(10));
    assert_eq!(u64::from_text("-10"), None);
    assert_eq!(u64::from_text("-0"), None);
    assert_eq!(u32::from_text("-0"), None);
    assert_eq!(usize::from_text("-1"), None);
    assert_eq!(usize::from_text("+480"), Some(480));
}

#[test]
fn a_sign_alone_is_no_integer() {
    assert_eq!(i32::from_text(""), None);
    assert_eq!(i32::from_text("+"), None);
    assert_eq!(i32::from_text("-"), None);
    assert_eq!(i32::from_text("+-1"), None);
    assert_eq!(i32::from_text("--1"), None);
    assert_eq!(i32::from_text("++1"), None);
    assert_eq!(i64::from_text("-+1"), None);
    assert_eq!(u64::from_text("+"), None);
    assert_eq!(u64::from_text(""), None);
    assert_eq!(i32::from_text("1-"), None);
}

#[test]
fn integers_end_at_the_bounds_of_their_type() {
    assert_eq!(i32::from_text("2147483647"), Some(i32::MAX));
    assert_eq!(i32::from_text("2147483648"), None);
    assert_eq!(i32::from_text("-2147483648"), Some(i32::MIN));
    assert_eq!(i32::from_text("-2147483649"), None);
    assert_eq!(i64::from_text("9223372036854775807"), Some(i64::MAX));
    assert_eq!(i64::from_text("9223372036854775808"), None);
    assert_eq!(i64::from_text("-9223372036854775808"), Some(i64::MIN));
    assert_eq!(i64::from_text("-9223372036854775809"), None);
    assert_eq!(u32::from_text("4294967295"), Some(u32::MAX));
    assert_eq!(u32::from_text("4294967296"), None);
    assert_eq!(u64::from_text("18446744073709551615"), Some(u64::MAX));
    assert_eq!(u64::from_text("18446744073709551616"), None);
    assert_eq!(usize::from_text(&usize::MAX.to_string()), Some(usize::MAX));
    assert_eq!(usize::from_text("340282366920938463463374607431768211456"), None);
}

#[test]
fn integers_read_as_the_standard_library_reads_them() {
    let samples = [
        "", "0", "-0", "+0", "00", "1", "-1", "+1", "10", "0010", "-0010", "+", "-", "+-1", "-+1",
        " 1", "1 ", "1,2", "1e3", "0x10", "1_0", "12abc", "abc", "\u{661}\u{662}",
        "127", "128", "255", "256", "32767", "65535", "65536",
        "2147483647", "2147483648", "-2147483648", "-2147483649",
        "4294967295", "4294967296", "-4294967295",
        "9223372036854775807", "9223372036854775808",
        "-9223372036854775808", "-9223372036854775809",
        "18446744073709551615", "18446744073709551616",
        "+18446744073709551615", "000000000000000000000000000000000000001",
        "184467440737095516150", "99999999999999999999999999999999999999",
    ];
    for s in samples {
        assert_eq!(i32::from_text(s), s.parse::<i32>().ok(), "i32 from {:?}", s);
        assert_eq!(i64::from_text(s), s.parse::<i64>().ok(), "i64 from {:?}", s);
        assert_eq!(u32::from_text(s), s.parse::<u32>().ok(), "u32 from {:?}", s);
        assert_eq!(u64::from_text(s), s.parse::<u64>().ok(), "u64 from {:?}", s);
        assert_eq!(usize::from_text(s), s.parse::<usize>().ok(), "usize from {:?}", s);
    }
}
