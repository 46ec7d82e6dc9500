use hexdec::convert::{decimal_to_hex, hex_to_decimal, ParseError};

#[test]
fn dec_to_hex_255_is_ff() {
    assert_eq!(decimal_to_hex("255").unwrap(), "FF");
}

#[test]
fn dec_to_hex_zero() {
    assert_eq!(decimal_to_hex("0").unwrap(), "0");
}

#[test]
fn dec_to_hex_minus_one_is_twos_complement() {
    assert_eq!(decimal_to_hex("-1").unwrap(), "FFFFFFFFFFFFFFFF");
}

#[test]
fn dec_to_hex_max() {
    assert_eq!(decimal_to_hex("9223372036854775807").unwrap(), "7FFFFFFFFFFFFFFF");
}

#[test]
fn dec_to_hex_min() {
    assert_eq!(decimal_to_hex("-9223372036854775808").unwrap(), "8000000000000000");
}

#[test]
fn dec_to_hex_plus_sign_accepted() {
    assert_eq!(decimal_to_hex("+42").unwrap(), "2A");
}

#[test]
fn dec_to_hex_rejects_letters() {
    assert_eq!(decimal_to_hex("abc").unwrap_err(), ParseError::InvalidDigit);
}

#[test]
fn dec_to_hex_rejects_empty() {
    assert_eq!(decimal_to_hex("").unwrap_err(), ParseError::Empty);
}

#[test]
fn dec_to_hex_rejects_bare_sign() {
    assert_eq!(decimal_to_hex("-").unwrap_err(), ParseError::InvalidDigit);
    assert_eq!(decimal_to_hex("+").unwrap_err(), ParseError::InvalidDigit);
}

#[test]
fn dec_to_hex_rejects_inner_space() {
    assert_eq!(decimal_to_hex("12 3").unwrap_err(), ParseError::InvalidDigit);
}

#[test]
fn dec_to_hex_overflow() {
    assert_eq!(
        decimal_to_hex("9223372036854775808").unwrap_err(),
        ParseError::PosOverflow
    );
}

#[test]
fn dec_to_hex_underflow() {
    assert_eq!(
        decimal_to_hex("-9223372036854775809").unwrap_err(),
        ParseError::NegOverflow
    );
}

#[test]
fn hex_to_dec_ff_is_255() {
    assert_eq!(hex_to_decimal("FF").unwrap(), "255");
}

#[test]
fn hex_to_dec_lower_case_accepted() {
    assert_eq!(hex_to_decimal("ff").unwrap(), "255");
}

#[test]
fn hex_to_dec_signed_input_accepted() {
    // Policy: a leading sign is accepted on hexadecimal input, so "-1"
    // parses as minus one rather than failing.
    assert_eq!(hex_to_decimal("-1").unwrap(), "-1");
    assert_eq!(hex_to_decimal("+1A").unwrap(), "26");
}

#[test]
fn hex_to_dec_zero() {
    assert_eq!(hex_to_decimal("0").unwrap(), "0");
}

#[test]
fn hex_to_dec_min() {
    assert_eq!(hex_to_decimal("-8000000000000000").unwrap(), "-9223372036854775808");
}

#[test]
fn hex_to_dec_overflow() {
    assert_eq!(
        hex_to_decimal("8000000000000000").unwrap_err(),
        ParseError::PosOverflow
    );
    assert_eq!(
        hex_to_decimal("10000000000000000").unwrap_err(),
        ParseError::PosOverflow
    );
}

#[test]
fn hex_to_dec_rejects_prefix() {
    assert_eq!(hex_to_decimal("0x10").unwrap_err(), ParseError::InvalidDigit);
}

#[test]
fn hex_to_dec_rejects_non_digit() {
    assert_eq!(hex_to_decimal("G").unwrap_err(), ParseError::InvalidDigit);
}

#[test]
fn hex_to_dec_rejects_empty() {
    assert_eq!(hex_to_decimal("").unwrap_err(), ParseError::Empty);
}

#[test]
fn round_trip_non_negative() {
    let hex = decimal_to_hex("255").unwrap();
    assert_eq!(hex_to_decimal(&hex).unwrap(), "255");
    let hex = decimal_to_hex("0").unwrap();
    assert_eq!(hex_to_decimal(&hex).unwrap(), "0");
    let hex = decimal_to_hex("9223372036854775807").unwrap();
    assert_eq!(hex_to_decimal(&hex).unwrap(), "9223372036854775807");
}
