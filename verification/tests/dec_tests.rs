use audiocast::dec::{i32_to_dec, parse_u64_dec, u64_to_dec, usize_to_dec};

#[test]
fn prints_decimal() {
    assert_eq!(u64_to_dec(0), "0");
    assert_eq!(u64_to_dec(7), "7");
    assert_eq!(u64_to_dec(10), "10");
    assert_eq!(u64_to_dec(12345), "12345");
    assert_eq!(u64_to_dec(u64::MAX), "18446744073709551615");
    assert_eq!(usize_to_dec(42), "42");
}

#[test]
fn prints_signed_decimal() {
    assert_eq!(i32_to_dec(0), "0");
    assert_eq!(i32_to_dec(31), "31");
    assert_eq!(i32_to_dec(-5), "-5");
    assert_eq!(i32_to_dec(i32::MIN), "-2147483648");
}

#[test]
fn parses_decimal() {
    assert_eq!(parse_u64_dec("0"), Some(0));
    assert_eq!(parse_u64_dec("10000000"), Some(10_000_000));
    assert_eq!(parse_u64_dec("+123"), Some(123));
    assert_eq!(parse_u64_dec("18446744073709551615"), Some(u64::MAX));
}

#[test]
fn rejects_bad_numerals() {
    assert_eq!(parse_u64_dec(""), None);
    assert_eq!(parse_u64_dec("+"), None);
    assert_eq!(parse_u64_dec("abc"), None);
    assert_eq!(parse_u64_dec("12a"), None);
    assert_eq!(parse_u64_dec("-3"), None);
    assert_eq!(parse_u64_dec(" 12"), None);
    assert_eq!(parse_u64_dec("18446744073709551616"), None);
}

#[test]
fn round_trips_with_std() {
    for s in ["0", "1", "99", "4096", "18446744073709551615", "+77"] {
        assert_eq!(parse_u64_dec(s), s.parse::<u64>().ok());
    }
    for n in [0u64, 1, 9, 10, 4895, u64::MAX] {
        assert_eq!(u64_to_dec(n), n.to_string());
        assert_eq!(parse_u64_dec(&u64_to_dec(n)), Some(n));
    }
}
