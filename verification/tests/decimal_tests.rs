use asmvm::util::decimal::{i32_to_decimal, parse_i32, parse_u8};
use asmvm::util::endianness::{as_i32_le, as_u32_be, as_u32_le, i32_bytes_be, i32_bytes_le};

fn text_of(value: i32) -> String {
    i32_to_decimal(value).into_iter().collect()
}

#[test]
fn writes_numbers_in_decimal() {
    assert_eq!(text_of(0), "0");
    assert_eq!(text_of(7), "7");
    assert_eq!(text_of(10), "10");
    assert_eq!(text_of(-1), "-1");
    assert_eq!(text_of(1000000000), "1000000000");
    assert_eq!(text_of(i32::MAX), "2147483647");
    assert_eq!(text_of(i32::MIN), "-2147483648");
}

#[test]
fn writes_what_the_standard_formatter_writes() {
    for value in [-100000, -99, -10, -9, 9, 99, 100, 101, 12345, 65536, 99999999] {
        assert_eq!(text_of(value), format!("{}", value));
    }
}

#[test]
fn reads_unsigned_words() {
    assert_eq!(as_u32_le(&[1, 2, 3, 4]), 0x04030201);
    assert_eq!(as_u32_be(&[1, 2, 3, 4]), 0x01020304);
    assert_eq!(as_u32_le(&[0xff, 0xff, 0xff, 0xff]), u32::MAX);
    assert_eq!(as_u32_be(&[0x80, 0, 0, 0]), 0x80000000);
}

#[test]
fn words_survive_a_round_trip() {
    for value in [0, 1, -1, 255, 256, -256, 65535, i32::MAX, i32::MIN, 0x12345678, -0x12345678] {
        assert_eq!(as_i32_le(&i32_bytes_le(value)), value);
        assert_eq!(i32_bytes_le(value), value.to_le_bytes());
        assert_eq!(i32_bytes_be(value), value.to_be_bytes());
    }
}

#[test]
fn reads_signed_numbers() {
    assert_eq!(parse_i32("0"), Some(0));
    assert_eq!(parse_i32("-0"), Some(0));
    assert_eq!(parse_i32("+17"), Some(17));
    assert_eq!(parse_i32("-17"), Some(-17));
    assert_eq!(parse_i32("0017"), Some(17));
    assert_eq!(parse_i32("2147483647"), Some(i32::MAX));
    assert_eq!(parse_i32("-2147483648"), Some(i32::MIN));
    assert_eq!(parse_i32("2147483648"), None);
    assert_eq!(parse_i32("-2147483649"), None);
    assert_eq!(parse_i32("99999999999999999999"), None);
    assert_eq!(parse_i32(""), None);
    assert_eq!(parse_i32("+"), None);
    assert_eq!(parse_i32("-"), None);
    assert_eq!(parse_i32("--1"), None);
    assert_eq!(parse_i32("1 "), None);
    assert_eq!(parse_i32(" 1"), None);
    assert_eq!(parse_i32("1a"), None);
    assert_eq!(parse_i32("\u{661}"), None);
}

#[test]
fn reads_bytes() {
    assert_eq!(parse_u8("0"), Some(0));
    assert_eq!(parse_u8("+255"), Some(255));
    assert_eq!(parse_u8("000255"), Some(255));
    assert_eq!(parse_u8("256"), None);
    assert_eq!(parse_u8("-1"), None);
    assert_eq!(parse_u8("-0"), None);
    assert_eq!(parse_u8(""), None);
    assert_eq!(parse_u8("+"), None);
    assert_eq!(parse_u8("12x"), None);
}

#[test]
fn reads_what_the_standard_parser_reads() {
    for text in ["0", "-0", "+0", "12", "-12", "+12", "", "-", "+", "1_000", "0x10", "2147483647", "2147483648", "-2147483648", "-2147483649", "007", "1e3", " 1", "1\n"] {
        assert_eq!(parse_i32(text), text.parse::<i32>().ok(), "for {:?}", text);
        assert_eq!(parse_u8(text), text.parse::<u8>().ok(), "for {:?}", text);
    }
}

#[test]
fn a_number_written_and_read_again_is_the_same() {
    for value in [0, 1, -1, 9, 10, -10, 99, 100, 12345, -67890, i32::MAX, i32::MIN] {
        let text: String = i32_to_decimal(value).into_iter().collect();
        assert_eq!(parse_i32(&text), Some(value));
    }
}
