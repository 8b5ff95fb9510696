use vislog_core::guid::{hex_to_num, GUIDParsingError, Guid};

#[test]
fn hex_to_num_ascii_nums() {
    assert_eq!(hex_to_num('0'), Some(0));
    assert_eq!(hex_to_num('5'), Some(5));
    assert_eq!(hex_to_num('9'), Some(9));
}

#[test]
fn hex_to_num_ascii_lower() {
    assert_eq!(hex_to_num('a'), Some(10));
    assert_eq!(hex_to_num('d'), Some(13));
    assert_eq!(hex_to_num('f'), Some(15));
}

#[test]
fn hex_to_num_ascii_upper() {
    assert_eq!(hex_to_num('A'), Some(10));
    assert_eq!(hex_to_num('D'), Some(13));
    assert_eq!(hex_to_num('F'), Some(15));
}

#[test]
fn hex_to_num_invalid_chars() {
    // All printable ASCII characters that are not hexadecimal digits or letters.
    let invalid_char_iter = ('!'..='/')
        .chain(':'..='@')
        .chain('['..='`')
        .chain('{'..='~');

    invalid_char_iter.for_each(|c| assert_eq!(hex_to_num(c), None));
}

#[test]
fn parse_guid_from_str_with_hyphens() {
    let s = "C7AD875E-1344-4D9B-A883-32E748890908";
    let guid = Guid::try_from(s).expect("Failed to parse GUID");

    let expected = Guid::from_bytes([
        0xC7, 0xAD, 0x87, 0x5E, 0x13, 0x44, 0x4D, 0x9B, 0xA8, 0x83, 0x32, 0xE7, 0x48, 0x89, 0x09,
        0x08,
    ]);

    assert_eq!(guid, expected);
}

#[test]
fn parse_guid_from_str_without_hyphens() {
    let s = "C7AD875E13444D9BA88332E748890908";
    let guid = Guid::try_from(s).expect("Failed to parse GUID");

    let expected = Guid::from_bytes([
        0xC7, 0xAD, 0x87, 0x5E, 0x13, 0x44, 0x4D, 0x9B, 0xA8, 0x83, 0x32, 0xE7, 0x48, 0x89, 0x09,
        0x08,
    ]);

    assert_eq!(guid, expected);
}

#[test]
fn error_when_parse_guid_from_str_when_too_long() {
    let s = "C7AD875E-1344-4D9B-A883-32E748890908-123321123";

    assert_eq!(Guid::try_from(s), Err(GUIDParsingError::TooLong));
}

#[test]
fn error_when_parse_guid_from_str_when_too_short() {
    let s = "C7AD875E-1344-4D9B-A883";

    assert_eq!(Guid::try_from(s), Err(GUIDParsingError::TooShort));
}

#[test]
fn error_when_parse_guid_from_str_with_invalid_char() {
    let s = "+7AD875E-1344-4D9B-A883-32E748890908";

    assert_eq!(Guid::try_from(s), Err(GUIDParsingError::InvalidCharacter));
}

#[test]
fn parse_guid_then_back_to_str() {
    let s = "C7AD875E-1344-4D9B-A883-32E748890908";
    let guid = Guid::try_from(s).expect("Failed to parse GUID");

    assert_eq!(guid.to_string(), s);
}

#[test]
fn parse_and_display_guid_starting_with_0() {
    let s = "08DD69D3-9F67-4A81-A5AA-5738B6A79D2B";
    let guid = Guid::try_from(s).unwrap();

    assert_eq!(guid.to_string(), s);
}

#[test]
fn equivalent_results_with_uuid() {
    let uuid = uuid::Uuid::parse_str("08DD69D3-9F67-4A81-A5AA-5738B6A79D2B").unwrap();

    let guid = Guid::try_from("08DD69D3-9F67-4A81-A5AA-5738B6A79D2B").unwrap();

    assert_eq!(uuid.to_string().to_uppercase(), guid.to_string());
}

#[test]
fn parsing_errors_describe_themselves() {
    assert_eq!(GUIDParsingError::TooShort.to_string(), "String provided is too short");
    assert_eq!(GUIDParsingError::TooLong.to_string(), "String provided is too long");
    assert_eq!(
        GUIDParsingError::InvalidCharacter.to_string(),
        "String contains invalid characters"
    );
}
