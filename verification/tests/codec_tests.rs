use token_ownership::codec::{decode_hex, encode_dec, encode_hex, parse_32_bytes};
use token_ownership::errors::FatalError;

#[test]
fn decode_hex_accepts_all_digit_forms() {
    let decoded = decode_hex(b"0123456789abcdefABCDEF").unwrap();
    assert_eq!(decoded, vec![0x01, 0x23, 0x45, 0x67, 0x89, 0xab, 0xcd, 0xef, 0xab, 0xcd, 0xef]);
}

#[test]
fn decode_hex_rejects_odd_length() {
    assert!(decode_hex(b"abc").is_none());
}

#[test]
fn decode_hex_rejects_non_hex_characters() {
    assert!(decode_hex(b"zz").is_none());
    assert!(decode_hex(b"0g").is_none());
}

#[test]
fn decode_hex_empty_is_empty() {
    assert_eq!(decode_hex(b"").unwrap(), Vec::<u8>::new());
}

#[test]
fn encode_hex_is_lowercase_two_digits_per_byte() {
    assert_eq!(encode_hex(&[0x00, 0x1a, 0xff]), b"001aff".to_vec());
}

#[test]
fn encode_then_decode_round_trips() {
    let bytes = vec![0xde, 0xad, 0xbe, 0xef, 0x00, 0x7f];
    let encoded = encode_hex(&bytes);
    assert_eq!(decode_hex(&encoded).unwrap(), bytes);
}

#[test]
fn encode_dec_formats_decimal() {
    assert_eq!(encode_dec(0), b"0".to_vec());
    assert_eq!(encode_dec(7), b"7".to_vec());
    assert_eq!(encode_dec(1234567890), b"1234567890".to_vec());
    assert_eq!(encode_dec(u64::MAX), b"18446744073709551615".to_vec());
}

#[test]
fn parse_32_bytes_accepts_with_and_without_marker() {
    let with_marker =
        parse_32_bytes("0x0000000000000000000000000000000000000000000000000000000000000042")
            .unwrap();
    let bare = parse_32_bytes("0000000000000000000000000000000000000000000000000000000000000042")
        .unwrap();
    assert_eq!(with_marker[31], 0x42);
    assert_eq!(with_marker, bare);
}

#[test]
fn parse_32_bytes_rejects_wrong_length() {
    assert_eq!(parse_32_bytes("0x1234"), Err(FatalError::MalformedHex));
    let too_long = format!("0x{}", "00".repeat(33));
    assert_eq!(parse_32_bytes(&too_long), Err(FatalError::MalformedHex));
}

#[test]
fn parse_32_bytes_rejects_non_hex() {
    let bad = format!("0x{}zz", "00".repeat(31));
    assert_eq!(parse_32_bytes(&bad), Err(FatalError::MalformedHex));
}
