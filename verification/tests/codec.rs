use zerohex::codec::{parse, ParseError};

fn sample_20() -> Vec<u8> {
    vec![
        0x00, 0x01, 0x02, 0x03, 0x04, 0x05, 0x06, 0x07, 0x08, 0x09, 0x0a, 0x0b, 0x0c, 0x0d, 0x0e,
        0x0f, 0x10, 0x11, 0x12, 0x13,
    ]
}

#[test]
fn round_trip_mixed_bytes() {
    let bytes: Vec<u8> = vec![0x00, 0xff, 0x7f, 0x80, 0x0a, 0xde];
    let text = zerohex::codec::format(&bytes);
    assert_eq!(parse(&text, bytes.len()), Ok(bytes));
}

#[test]
fn round_trip_address() {
    let bytes = sample_20();
    let text = zerohex::codec::format(&bytes);
    assert_eq!(parse(&text, 20), Ok(bytes));
}

#[test]
fn canonical_form_of_output() {
    let text = zerohex::codec::format(&vec![0x00, 0xab, 0xff]);
    assert_eq!(text.len(), 2 * 3 + 2);
    assert!(text.starts_with("0x"));
    assert!(text[2..]
        .chars()
        .all(|c| c.is_ascii_digit() || ('a' <= c && c <= 'f')));
    assert_eq!(text, "0x00abff");
}

#[test]
fn format_exact_values() {
    assert_eq!(zerohex::codec::format(&vec![]), "0x");
    assert_eq!(zerohex::codec::format(&vec![0x00]), "0x00");
    assert_eq!(zerohex::codec::format(&vec![0xff]), "0xff");
    assert_eq!(zerohex::codec::format(&vec![0x01, 0x23, 0x45, 0x67, 0x89, 0xab, 0xcd, 0xef]),
        "0x0123456789abcdef");
}

#[test]
fn parse_empty_length_zero() {
    assert_eq!(parse("", 0), Ok(vec![]));
    assert_eq!(parse("0x", 0), Ok(vec![]));
    assert_eq!(parse("0X", 0), Ok(vec![]));
    assert_eq!(parse("ab", 0), Err(ParseError::InvalidLength));
}

#[test]
fn parse_uppercase_prefix() {
    assert_eq!(
        parse("0X000102030405060708090a0b0c0d0e0f10111213", 20),
        Ok(sample_20())
    );
}

#[test]
fn parse_mixed_case_digits() {
    assert_eq!(parse("aBcD", 2), Ok(vec![0xab, 0xcd]));
    assert_eq!(parse("0xAbCdEf", 3), Ok(vec![0xab, 0xcd, 0xef]));
    assert_eq!(parse("FFff", 2), Ok(vec![0xff, 0xff]));
}

#[test]
fn parse_rejects_wrong_length() {
    let thirty_nine = "000102030405060708090a0b0c0d0e0f1011121";
    assert_eq!(thirty_nine.len(), 39);
    assert_eq!(parse(thirty_nine, 20), Err(ParseError::InvalidLength));
    assert_eq!(parse("00", 20), Err(ParseError::InvalidLength));
    assert_eq!(parse("0x00", 20), Err(ParseError::InvalidLength));
}

#[test]
fn parse_rejects_wrong_prefix() {
    let wrong = "xx000102030405060708090a0b0c0d0e0f10111213";
    assert_eq!(wrong.len(), 42);
    assert_eq!(parse(wrong, 20), Err(ParseError::InvalidLength));
    let wrong_x0 = "x0000102030405060708090a0b0c0d0e0f10111213";
    assert_eq!(parse(wrong_x0, 20), Err(ParseError::InvalidLength));
}

#[test]
fn parse_rejects_bad_digit() {
    let with_g = "0001020304050607g8090a0b0c0d0e0f10111213";
    assert_eq!(with_g.len(), 40);
    assert_eq!(parse(with_g, 20), Err(ParseError::InvalidHexDigit));
    assert_eq!(parse("zz", 1), Err(ParseError::InvalidHexDigit));
    assert_eq!(parse("0x0g", 1), Err(ParseError::InvalidHexDigit));
}

#[test]
fn bad_digit_inside_prefixed_window() {
    assert_eq!(parse("0x0!", 1), Err(ParseError::InvalidHexDigit));
}

#[test]
fn decode_text_success_and_description() {
    assert_eq!(zerohex::codec::decode_text("0xab", 1), Ok(vec![0xab]));
    assert_eq!(
        zerohex::codec::decode_text("abc", 1),
        Err("invalid string length".to_owned())
    );
    assert_eq!(
        zerohex::codec::decode_text("0xg1", 1),
        Err("invalid character".to_owned())
    );
}

#[test]
fn error_messages() {
    assert_eq!(ParseError::InvalidLength.message(), "invalid string length");
    assert_eq!(ParseError::InvalidHexDigit.message(), "invalid character");
}

#[test]
fn debug_string_shape() {
    let address: Vec<u8> = vec![1u8; 20];
    assert_eq!(
        zerohex::codec::debug_string("Address", &address),
        "Address(0x0101010101010101010101010101010101010101)"
    );
}
