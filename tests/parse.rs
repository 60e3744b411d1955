use microcode::parse::{
    bin_u8, dec_u8, hex_u8, hlt, identifier, label_def, memory_location, ErrorKind, ParseError,
};

fn error(input: &str, kind: ErrorKind) -> ParseError<'_> {
    ParseError { input, kind }
}

#[test]
fn memory_location_matches_numbers() {
    let input = "123";
    assert_eq!(memory_location(input), Ok(("", 123)));
    let input = "0xFE";
    assert_eq!(memory_location(input), Ok(("", 0xFE)));
    let input = "0b00001101";
    assert_eq!(memory_location(input), Ok(("", 0b00001101)));
}

#[test]
fn dec_u8_matches_8bit_number() {
    let input = "123";
    assert_eq!(dec_u8(input), Ok(("", 123)));
    let input = "sda";
    assert_eq!(dec_u8(input), Err(error(input, ErrorKind::Digit)));
    let input = "256";
    assert_eq!(dec_u8(input), Err(error(input, ErrorKind::Digit)));
    let input = "12lakfsdj";
    assert_eq!(dec_u8(input), Ok(("lakfsdj", 12)));
    let input = "12 lakfsdj";
    assert_eq!(dec_u8(input), Ok((" lakfsdj", 12)));
}

#[test]
fn hex_u8_matches_8bit_number() {
    let input = "0x10";
    assert_eq!(hex_u8(input), Ok(("", 0x10)));
    let input = "sda";
    assert_eq!(hex_u8(input), Err(error(input, ErrorKind::Tag)));
    let input = "123";
    assert_eq!(hex_u8(input), Err(error(input, ErrorKind::Tag)));
    let input = "0x123";
    assert_eq!(hex_u8(input), Err(error(input, ErrorKind::Digit)));
    let input = "0xGE";
    assert_eq!(hex_u8(input), Err(error("GE", ErrorKind::TakeWhile1)));
    let input = "0x12lakfsdj";
    assert_eq!(hex_u8(input), Ok(("lakfsdj", 0x12)));
    let input = "0x12 lakfsdj";
    assert_eq!(hex_u8(input), Ok((" lakfsdj", 0x12)));
}

#[test]
fn bin_u8_matches_8bit_number() {
    let input = "0b10";
    assert_eq!(bin_u8(input), Ok(("", 0b10)));
    let input = "sda";
    assert_eq!(bin_u8(input), Err(error(input, ErrorKind::Tag)));
    let input = "123";
    assert_eq!(bin_u8(input), Err(error(input, ErrorKind::Tag)));
    let input = "0b10101010101010101010";
    assert_eq!(bin_u8(input), Err(error(input, ErrorKind::Digit)));
    let input = "0b32";
    assert_eq!(bin_u8(input), Err(error("32", ErrorKind::TakeWhile1)));
    let input = "0b11lakfsdj";
    assert_eq!(bin_u8(input), Ok(("lakfsdj", 0b11)));
    let input = "0b10101 lakfsdj";
    assert_eq!(bin_u8(input), Ok((" lakfsdj", 0b10101)));
}

#[test]
fn hlt_matches_hlt() {
    let input = "hlt";
    assert_eq!(hlt(input), Ok(("", input)));
    let input = "sda";
    assert_eq!(hlt(input), Err(error(input, ErrorKind::Tag)));
    let input = "hlt asdf";
    assert_eq!(hlt(input), Ok((" asdf", "hlt")));
}

#[test]
fn identifier_allows_alphabetic() {
    let input = "abcdefghijklmnopqrstuvwxyz";
    assert_eq!(identifier(input), Ok(("", input)));
}

#[test]
fn identifier_allows__() {
    let input = "_ ";
    assert_eq!(identifier(input), Ok((" ", "_")));
}

#[test]
fn identifier_allows_numeric_after_one_other() {
    let input = "_0123456789 ";
    assert_eq!(identifier(input), Ok((" ", "_0123456789")));
}

#[test]
fn identifier_denies_numeric_beginning() {
    let input = "012345asdfdf6789 ";
    assert_eq!(identifier(input), Err(error(input, ErrorKind::OneOf)));
}

#[test]
fn label_parses_stuff() {
    let input = "test: ";
    assert_eq!(label_def(input), Ok((" ", "test")));
}

#[test]
fn label_without_colon_fails_after_the_identifier() {
    let input = "loop x";
    assert_eq!(label_def(input), Err(error(" x", ErrorKind::Tag)));
}

#[test]
fn memory_location_falls_back_to_decimal() {
    assert_eq!(memory_location("0x123"), Ok(("x123", 0)));
    assert_eq!(memory_location("0B11"), Ok(("", 3)));
    assert_eq!(memory_location("0XfF,"), Ok((",", 255)));
    assert_eq!(memory_location("zz"), Err(error("zz", ErrorKind::Digit)));
}

#[test]
fn dec_u8_edges() {
    assert_eq!(dec_u8("255"), Ok(("", 255)));
    assert_eq!(dec_u8("0007"), Ok(("", 7)));
    assert_eq!(dec_u8(""), Err(error("", ErrorKind::Digit)));
}
