use file_cipher::hexcodec::{hex_decode, hex_encode};
use file_cipher::{generate_iv, generate_key};

#[test]
fn generated_key_is_64_lowercase_hex_chars() {
    let key = generate_key();
    assert_eq!(key.len(), 64);
    assert!(key.chars().all(|c| c.is_ascii_hexdigit() && !c.is_ascii_uppercase()));
}

#[test]
fn generated_iv_is_32_lowercase_hex_chars() {
    let iv = generate_iv();
    assert_eq!(iv.len(), 32);
    assert!(iv.chars().all(|c| c.is_ascii_hexdigit() && !c.is_ascii_uppercase()));
}

#[test]
fn successive_generations_differ() {
    assert_ne!(generate_key(), generate_key());
    assert_ne!(generate_iv(), generate_iv());
}

#[test]
fn generated_key_validates() {
    let key = generate_key();
    assert_eq!(hex_decode(&key).unwrap().len(), 32);
    let iv = generate_iv();
    assert_eq!(hex_decode(&iv).unwrap().len(), 16);
}

#[test]
fn hex_encode_agrees_with_reference() {
    for len in [0usize, 1, 7, 32, 200] {
        let bytes: Vec<u8> = (0..len).map(|i| (i * 31 + 5) as u8).collect();
        assert_eq!(hex_encode(&bytes), hex::encode(&bytes));
    }
}

#[test]
fn hex_decode_agrees_with_reference() {
    for s in ["", "00", "deadBEEF", "0123456789abcdefABCDEF01"] {
        assert_eq!(hex_decode(s).unwrap(), hex::decode(s).unwrap());
    }
    for s in ["0", "abc", "g0", "0x12", "12 34"] {
        assert!(hex_decode(s).is_none());
        assert!(hex::decode(s).is_err());
    }
}

#[test]
fn hex_round_trip() {
    let bytes: Vec<u8> = (0..=255u8).collect();
    let encoded = hex_encode(&bytes);
    assert_eq!(encoded.len(), 512);
    assert_eq!(hex_decode(&encoded).unwrap(), bytes);
}
