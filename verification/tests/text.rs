use tn_file_upload::text::{parse_unsigned_str, u64_to_decimal, IntErrorKind};

#[test]
fn decimal_rendering() {
    assert_eq!(u64_to_decimal(0), "0");
    assert_eq!(u64_to_decimal(7), "7");
    assert_eq!(u64_to_decimal(104857600), "104857600");
    assert_eq!(u64_to_decimal(u64::MAX), "18446744073709551615");
}

#[test]
fn decimal_parsing_accepts_digits_and_a_plus_sign() {
    assert_eq!(parse_unsigned_str("0", u64::MAX), Ok(0));
    assert_eq!(parse_unsigned_str("+65536", u64::MAX), Ok(65536));
    assert_eq!(parse_unsigned_str("007", u64::MAX), Ok(7));
    assert_eq!(parse_unsigned_str("18446744073709551615", u64::MAX), Ok(u64::MAX));
}

#[test]
fn decimal_parsing_errors() {
    assert_eq!(parse_unsigned_str("", u64::MAX), Err(IntErrorKind::Empty));
    assert_eq!(parse_unsigned_str("+", u64::MAX), Err(IntErrorKind::InvalidDigit));
    assert_eq!(parse_unsigned_str("-", u64::MAX), Err(IntErrorKind::InvalidDigit));
    assert_eq!(parse_unsigned_str("-1", u64::MAX), Err(IntErrorKind::InvalidDigit));
    assert_eq!(parse_unsigned_str("12a", u64::MAX), Err(IntErrorKind::InvalidDigit));
    assert_eq!(parse_unsigned_str(" 1", u64::MAX), Err(IntErrorKind::InvalidDigit));
    assert_eq!(parse_unsigned_str("18446744073709551616", u64::MAX), Err(IntErrorKind::PosOverflow));
    assert_eq!(parse_unsigned_str("256", 255), Err(IntErrorKind::PosOverflow));
    assert_eq!(parse_unsigned_str("255", 255), Ok(255));
}

#[test]
fn decimal_parsing_reports_the_first_fault() {
    assert_eq!(parse_unsigned_str("99999999999999999999x", u64::MAX), Err(IntErrorKind::PosOverflow));
    assert_eq!(parse_unsigned_str("1x99999999999999999999", u64::MAX), Err(IntErrorKind::InvalidDigit));
}

#[test]
fn decimal_round_trip() {
    for n in [0u64, 1, 9, 10, 99, 100, 65536, 4294967296, u64::MAX - 1, u64::MAX] {
        assert_eq!(parse_unsigned_str(&u64_to_decimal(n), u64::MAX), Ok(n));
    }
}
