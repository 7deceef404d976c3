use dipsniper::text::{i64_to_string, parse_u128, u128_to_string, u64_to_string, IntErrorKind};

#[test]
fn formats_integers_in_decimal() {
    assert_eq!(u128_to_string(0), "0");
    assert_eq!(u128_to_string(1234567890), "1234567890");
    assert_eq!(u128_to_string(u128::MAX), u128::MAX.to_string());
    assert_eq!(i64_to_string(-42), "-42");
    assert_eq!(i64_to_string(i64::MIN), i64::MIN.to_string());
    assert_eq!(i64_to_string(0), "0");
    assert_eq!(u64_to_string(u64::MAX), "18446744073709551615");
}

#[test]
fn parses_decimal_amounts() {
    assert_eq!(parse_u128("0"), Ok(0));
    assert_eq!(parse_u128("1000000000000000000"), Ok(1_000_000_000_000_000_000));
    assert_eq!(parse_u128("+17"), Ok(17));
    assert_eq!(parse_u128(&u128::MAX.to_string()), Ok(u128::MAX));
}

#[test]
fn parse_errors_match_std() {
    assert_eq!(parse_u128(""), Err(IntErrorKind::Empty));
    assert_eq!(parse_u128("+"), Err(IntErrorKind::InvalidDigit));
    assert_eq!(parse_u128("12a"), Err(IntErrorKind::InvalidDigit));
    assert_eq!(parse_u128("-1"), Err(IntErrorKind::InvalidDigit));
    assert_eq!(parse_u128("340282366920938463463374607431768211456"), Err(IntErrorKind::PosOverflow));
    assert_eq!(IntErrorKind::Empty.message(), "".parse::<u128>().unwrap_err().to_string());
    assert_eq!(IntErrorKind::InvalidDigit.message(), "x".parse::<u128>().unwrap_err().to_string());
    assert_eq!(
        IntErrorKind::PosOverflow.message(),
        "340282366920938463463374607431768211456".parse::<u128>().unwrap_err().to_string()
    );
}

#[test]
fn parse_undoes_format() {
    for n in [0u128, 9, 10, 99, 100, 123456789012345678901234567890, u128::MAX] {
        assert_eq!(parse_u128(&u128_to_string(n)), Ok(n));
    }
}
