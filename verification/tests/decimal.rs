use display_map::decimal::{decimal_string, parse_decimal, push_decimal, NumberError};

#[test]
fn writes_zero() {
    assert_eq!(decimal_string(0), "0");
}

#[test]
fn writes_single_digits() {
    assert_eq!(decimal_string(7), "7");
    assert_eq!(decimal_string(9), "9");
}

#[test]
fn writes_without_leading_zeros() {
    assert_eq!(decimal_string(10), "10");
    assert_eq!(decimal_string(55), "55");
    assert_eq!(decimal_string(1002), "1002");
    assert_eq!(decimal_string(100000), "100000");
}

#[test]
fn writes_the_largest_number() {
    assert_eq!(decimal_string(u32::MAX), "4294967295");
}

#[test]
fn appends_to_what_is_there() {
    let mut out = String::from("n=");
    push_decimal(&mut out, 9999);
    assert_eq!(out, "n=9999");
}

#[test]
fn reads_plain_numbers() {
    assert_eq!(parse_decimal("0"), Ok(0));
    assert_eq!(parse_decimal("1002"), Ok(1002));
    assert_eq!(parse_decimal("4294967295"), Ok(u32::MAX));
}

#[test]
fn reads_leading_zeros() {
    assert_eq!(parse_decimal("007"), Ok(7));
    assert_eq!(parse_decimal("00000000000000000042"), Ok(42));
}

#[test]
fn reads_one_plus_sign() {
    assert_eq!(parse_decimal("+5"), Ok(5));
    assert_eq!(parse_decimal("++5"), Err(NumberError::NotANumber));
}

#[test]
fn refuses_texts_without_digits() {
    assert_eq!(parse_decimal(""), Err(NumberError::NotANumber));
    assert_eq!(parse_decimal("+"), Err(NumberError::NotANumber));
}

#[test]
fn refuses_other_characters() {
    assert_eq!(parse_decimal("-1"), Err(NumberError::NotANumber));
    assert_eq!(parse_decimal("12a"), Err(NumberError::NotANumber));
    assert_eq!(parse_decimal(" 1"), Err(NumberError::NotANumber));
    assert_eq!(parse_decimal("1 "), Err(NumberError::NotANumber));
    assert_eq!(parse_decimal("0x10"), Err(NumberError::NotANumber));
    assert_eq!(parse_decimal("\u{ff11}"), Err(NumberError::NotANumber));
    assert_eq!(parse_decimal("\u{0663}"), Err(NumberError::NotANumber));
}

#[test]
fn refuses_numbers_out_of_range() {
    assert_eq!(parse_decimal("4294967296"), Err(NumberError::OutOfRange));
    assert_eq!(parse_decimal("99999999999999999999"), Err(NumberError::OutOfRange));
}

#[test]
fn a_stray_character_counts_before_the_range() {
    assert_eq!(parse_decimal("99999999999999999999x"), Err(NumberError::NotANumber));
}

#[test]
fn reads_what_it_wrote() {
    for n in [0u32, 1, 9, 10, 99, 100, 1001, 65535, 65536, 4294967294, u32::MAX] {
        assert_eq!(parse_decimal(&decimal_string(n)), Ok(n));
    }
}

#[test]
fn agrees_with_the_standard_notation() {
    for n in [0u32, 5, 12, 345, 6789, 123456789, u32::MAX] {
        assert_eq!(decimal_string(n), format!("{}", n));
    }
}

#[test]
fn reads_what_the_standard_reading_reads() {
    for text in [
        "", "+", "-", "0", "+0", "-0", "00", "1", "+1", "++1", "+-1", "1+", "42", "0042", "4294967295",
        "4294967296", "+4294967295", "+4294967296", "42949672950", "18446744073709551616", "1_000",
        "1e3", "1.0", " 7", "7 ", "seven", "\u{0661}", "\u{ff17}", "12:34",
    ] {
        assert_eq!(parse_decimal(text).ok(), text.parse::<u32>().ok(), "{:?}", text);
    }
}
