use leo_synthesis::decimal::{append_decimal, decimal_string, parse_unsigned};
use leo_synthesis::integer::{Integer, IntegerType};

#[test]
fn digits_are_read() {
    assert_eq!(parse_unsigned("0", u128::MAX), Some(0));
    assert_eq!(parse_unsigned("7", u128::MAX), Some(7));
    assert_eq!(parse_unsigned("1234567890", u128::MAX), Some(1234567890));
    assert_eq!(parse_unsigned("007", u128::MAX), Some(7));
}

#[test]
fn a_plus_sign_may_lead() {
    assert_eq!(parse_unsigned("+5", u128::MAX), Some(5));
    assert_eq!(parse_unsigned("+", u128::MAX), None);
    assert_eq!(parse_unsigned("++5", u128::MAX), None);
    assert_eq!(parse_unsigned("5+", u128::MAX), None);
}

#[test]
fn other_text_is_no_number() {
    assert_eq!(parse_unsigned("", u128::MAX), None);
    assert_eq!(parse_unsigned("-1", u128::MAX), None);
    assert_eq!(parse_unsigned("12a", u128::MAX), None);
    assert_eq!(parse_unsigned("a12", u128::MAX), None);
    assert_eq!(parse_unsigned(" 1", u128::MAX), None);
    assert_eq!(parse_unsigned("1 ", u128::MAX), None);
    assert_eq!(parse_unsigned("1_000", u128::MAX), None);
    assert_eq!(parse_unsigned("٣", u128::MAX), None);
}

#[test]
fn the_bound_is_kept() {
    assert_eq!(parse_unsigned("255", 255), Some(255));
    assert_eq!(parse_unsigned("256", 255), None);
    assert_eq!(parse_unsigned("0", 0), Some(0));
    assert_eq!(parse_unsigned("1", 0), None);
    assert_eq!(parse_unsigned("9", 8), None);
    assert_eq!(parse_unsigned("10", 9), None);
    assert_eq!(parse_unsigned("1000", 999), None);
    assert_eq!(
        parse_unsigned("340282366920938463463374607431768211455", u128::MAX),
        Some(u128::MAX)
    );
    assert_eq!(parse_unsigned("340282366920938463463374607431768211456", u128::MAX), None);
    assert_eq!(parse_unsigned("9999999999999999999999999999999999999999999", u128::MAX), None);
    assert_eq!(parse_unsigned("99999999999999999999999999999999999999999x", u128::MAX), None);
}

#[test]
fn numbers_are_written_without_leading_zeros() {
    assert_eq!(decimal_string(0), "0");
    assert_eq!(decimal_string(9), "9");
    assert_eq!(decimal_string(10), "10");
    assert_eq!(decimal_string(1234567890), "1234567890");
    assert_eq!(decimal_string(u128::MAX), "340282366920938463463374607431768211455");
}

#[test]
fn writing_appends() {
    let mut text = String::from("n = ");
    append_decimal(&mut text, 42);
    append_decimal(&mut text, 0);
    assert_eq!(text, "n = 420");
}

#[test]
fn reading_what_was_written_gives_the_number_back() {
    for n in [0u128, 1, 9, 10, 99, 100, 65535, 65536, u64::MAX as u128, u128::MAX] {
        assert_eq!(parse_unsigned(&decimal_string(n), u128::MAX), Some(n));
    }
}

#[test]
fn integer_type_and_value() {
    assert_eq!(Integer::U8(3).get_type(), IntegerType::U8);
    assert_eq!(Integer::U16(3).get_type(), IntegerType::U16);
    assert_eq!(Integer::U32(3).get_type(), IntegerType::U32);
    assert_eq!(Integer::U64(3).get_type(), IntegerType::U64);
    assert_eq!(Integer::U128(3).get_type(), IntegerType::U128);
    assert_eq!(Integer::U8(255).value(), 255);
    assert_eq!(Integer::U128(u128::MAX).value(), u128::MAX);
    assert_eq!(IntegerType::U8.name(), "u8");
    assert_eq!(IntegerType::U16.name(), "u16");
    assert_eq!(IntegerType::U32.name(), "u32");
    assert_eq!(IntegerType::U64.name(), "u64");
    assert_eq!(IntegerType::U128.name(), "u128");
}
