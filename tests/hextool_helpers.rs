use streamchat::hextool::{ascii_or_dot, hex_to_bytes, parse_offset, HexError, OffsetError};

#[test]
fn offsets_in_decimal_and_hex() {
    assert_eq!(parse_offset("0"), Ok(0));
    assert_eq!(parse_offset("1234"), Ok(1234));
    assert_eq!(parse_offset("+7"), Ok(7));
    assert_eq!(parse_offset("0x1F"), Ok(31));
    assert_eq!(parse_offset("0xff"), Ok(255));
    assert_eq!(parse_offset("0xFFFFFFFFFFFFFFFF"), Ok(u64::MAX));
    assert_eq!(parse_offset("18446744073709551615"), Ok(u64::MAX));
}

#[test]
fn offsets_refused() {
    assert_eq!(parse_offset(""), Err(OffsetError::InvalidDecimal));
    assert_eq!(parse_offset("12a"), Err(OffsetError::InvalidDecimal));
    assert_eq!(parse_offset("-1"), Err(OffsetError::InvalidDecimal));
    assert_eq!(parse_offset("18446744073709551616"), Err(OffsetError::InvalidDecimal));
    assert_eq!(parse_offset("0x"), Err(OffsetError::InvalidHex));
    assert_eq!(parse_offset("0xG1"), Err(OffsetError::InvalidHex));
    assert_eq!(parse_offset("0x10000000000000000"), Err(OffsetError::InvalidHex));
}

#[test]
fn offsets_agree_with_std() {
    for s in ["42", "+42", "007", "99999999999999999999", "4x", " 1"] {
        assert_eq!(parse_offset(s).ok(), s.parse::<u64>().ok());
    }
    for s in ["abc", "+F", "00ff", "", "g"] {
        let hex = format!("0x{}", s);
        assert_eq!(parse_offset(&hex).ok(), u64::from_str_radix(s, 16).ok());
    }
}

#[test]
fn hex_strings_to_bytes() {
    assert_eq!(hex_to_bytes(""), Ok(vec![]));
    assert_eq!(hex_to_bytes("0A"), Ok(vec![10]));
    assert_eq!(hex_to_bytes("deadBEEF"), Ok(vec![0xDE, 0xAD, 0xBE, 0xEF]));
    assert_eq!(hex_to_bytes("+F"), Ok(vec![15]));
}

#[test]
fn hex_strings_refused() {
    assert_eq!(hex_to_bytes("abc"), Err(HexError::OddLength));
    assert_eq!(hex_to_bytes("zz"), Err(HexError::InvalidByte));
    assert_eq!(hex_to_bytes("00 1"), Err(HexError::InvalidByte));
    assert_eq!(hex_to_bytes("0-"), Err(HexError::InvalidByte));
}

#[test]
fn printable_bytes() {
    assert_eq!(ascii_or_dot(b'A'), 'A');
    assert_eq!(ascii_or_dot(0x20), ' ');
    assert_eq!(ascii_or_dot(0x7E), '~');
    assert_eq!(ascii_or_dot(0x7F), '.');
    assert_eq!(ascii_or_dot(0x1F), '.');
    assert_eq!(ascii_or_dot(0xFF), '.');
}
