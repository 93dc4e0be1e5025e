use nethex::hexcodec::{decode_hex, encode_hex, HexDecodeError};

#[test]
fn decode_uppercase_hex() {
    let r = decode_hex("11EE22FF");
    assert!(r == Ok(vec![0x11u8, 0xEE, 0x22, 0xFF]));
}

#[test]
fn decode_lowercase_hex() {
    let r = decode_hex("11ee22ff");
    assert!(r == Ok(vec![0x11u8, 0xEE, 0x22, 0xFF]));
}

#[test]
fn decode_empty_string() {
    let r = decode_hex("");
    assert!(r == Ok(vec![]));
}

#[test]
fn decode_odd_length_fails() {
    assert!(decode_hex("ABC") == Err(HexDecodeError::OddLength));
    assert!(decode_hex("1") == Err(HexDecodeError::OddLength));
}

#[test]
fn decode_invalid_char_fails() {
    assert!(decode_hex("GG") == Err(HexDecodeError::InvalidChar));
    assert!(decode_hex("0x11") == Err(HexDecodeError::InvalidChar));
    assert!(decode_hex("12 4") == Err(HexDecodeError::InvalidChar));
}

#[test]
fn encode_known_bytes() {
    let s = encode_hex(&vec![0x00u8, 0x0F, 0xA5]);
    assert_eq!(s, "000fa5");
}

#[test]
fn round_trip_is_case_insensitive() {
    let bytes = decode_hex("11EE22Ff").unwrap();
    let again = encode_hex(&bytes);
    assert_eq!(again, "11ee22ff");
}

#[test]
fn round_trip_from_bytes() {
    let bytes = vec![0u8, 1, 2, 253, 254, 255];
    let text = encode_hex(&bytes);
    assert!(decode_hex(&text) == Ok(bytes));
}
