use block_modes::block_padding::Pkcs7;
use block_modes::{BlockMode, Cbc};
use file_cipher::{decrypt, encrypt, ErrorKind};

const KEY: &str = "000102030405060708090a0b0c0d0e0f101112131415161718191a1b1c1d1e1f";
const IV: &str = "101112131415161718191a1b1c1d1e1f";
const ZERO_IV: &str = "00000000000000000000000000000000";

#[test]
fn round_trip_empty() {
    let data: Vec<u8> = Vec::new();
    let ct = encrypt(KEY, IV, &data).unwrap();
    assert_eq!(ct.len(), 16);
    let pt = decrypt(KEY, IV, &ct).unwrap();
    assert_eq!(pt, data);
}

#[test]
fn round_trip_various_lengths() {
    for len in [1usize, 5, 15, 16, 17, 31, 32, 33, 100, 255] {
        let data: Vec<u8> = (0..len).map(|i| (i * 7 + 3) as u8).collect();
        let ct = encrypt(KEY, IV, &data).unwrap();
        let expected_pad = 16 - len % 16;
        assert_eq!(ct.len(), len + expected_pad);
        assert_eq!(ct.len() % 16, 0);
        let pt = decrypt(KEY, IV, &ct).unwrap();
        assert_eq!(pt, data);
    }
}

#[test]
fn hello_end_to_end() {
    let data = b"hello".to_vec();
    let ct = encrypt(KEY, IV, &data).unwrap();
    assert_eq!(ct.len(), 16);
    let pt = decrypt(KEY, IV, &ct).unwrap();
    assert_eq!(pt, b"hello".to_vec());
}

// AES-256 single-block vector from FIPS-197 appendix C.3; with an all-zero
// IV the first CBC ciphertext block equals the raw block encryption.
#[test]
fn known_answer_first_block() {
    let data = hex::decode("00112233445566778899aabbccddeeff").unwrap();
    let ct = encrypt(KEY, ZERO_IV, &data).unwrap();
    assert_eq!(ct.len(), 32);
    assert_eq!(
        hex::encode(&ct[..16]),
        "8ea2b7ca516745bfeafc49904b496089"
    );
    let pt = decrypt(KEY, ZERO_IV, &ct).unwrap();
    assert_eq!(pt, data);
}

fn oracle_encrypt(key_hex: &str, iv_hex: &str, data: &[u8]) -> Vec<u8> {
    let key = hex::decode(key_hex).unwrap();
    let iv = hex::decode(iv_hex).unwrap();
    let cipher: Cbc<aes::Aes256, Pkcs7> = Cbc::new_from_slices(&key, &iv).unwrap();
    cipher.encrypt_vec(data)
}

fn oracle_decrypt(key_hex: &str, iv_hex: &str, data: &[u8]) -> Result<Vec<u8>, ()> {
    let key = hex::decode(key_hex).unwrap();
    let iv = hex::decode(iv_hex).unwrap();
    let cipher: Cbc<aes::Aes256, Pkcs7> = Cbc::new_from_slices(&key, &iv).unwrap();
    cipher.decrypt_vec(data).map_err(|_| ())
}

#[test]
fn agrees_with_block_modes_oracle() {
    for len in [0usize, 1, 5, 16, 17, 48, 96] {
        let data: Vec<u8> = (0..len).map(|i| (i * 13 + 1) as u8).collect();
        let ours = encrypt(KEY, IV, &data).unwrap();
        let theirs = oracle_encrypt(KEY, IV, &data);
        assert_eq!(ours, theirs);
        assert_eq!(decrypt(KEY, IV, &theirs).unwrap(), data);
        assert_eq!(oracle_decrypt(KEY, IV, &ours).unwrap(), data);
    }
}

#[test]
fn decrypt_rejects_length_not_multiple_of_block() {
    let data = b"some plaintext bytes".to_vec();
    let mut ct = encrypt(KEY, IV, &data).unwrap();
    ct.pop();
    assert_eq!(decrypt(KEY, IV, &ct), Err(ErrorKind::DecryptionError));
    let short = vec![1u8; 15];
    assert_eq!(decrypt(KEY, IV, &short), Err(ErrorKind::DecryptionError));
}

#[test]
fn decrypt_rejects_empty_input() {
    let empty: Vec<u8> = Vec::new();
    assert_eq!(decrypt(KEY, IV, &empty), Err(ErrorKind::DecryptionError));
}

#[test]
fn decrypt_rejects_wrong_key_padding() {
    // With a different key the last block decrypts to noise; for this fixed
    // pair of keys the noise does not end in well-formed padding. (A noise
    // block passes the padding check only with small probability; this pair
    // is a fixed case where it does not.)
    let other_key = "ffeeddccbbaa99887766554433221100ffeeddccbbaa99887766554433221100";
    let data = b"hello".to_vec();
    let ct = encrypt(KEY, IV, &data).unwrap();
    assert_eq!(decrypt(other_key, IV, &ct), Err(ErrorKind::DecryptionError));
}

#[test]
fn wrong_iv_changes_only_first_block_silently() {
    // Unauthenticated CBC: a wrong IV still yields well-formed padding when
    // the ciphertext has more than one block, and decryption "succeeds" with
    // a garbled first block. This is the documented absence of integrity
    // protection.
    let data: Vec<u8> = (0..40).map(|i| i as u8).collect();
    let ct = encrypt(KEY, IV, &data).unwrap();
    let pt = decrypt(KEY, ZERO_IV, &ct).unwrap();
    assert_eq!(pt.len(), data.len());
    assert_ne!(pt[..16], data[..16]);
    assert_eq!(pt[16..], data[16..]);
}

#[test]
fn key_length_errors() {
    let data = b"hello".to_vec();
    let key62 = &KEY[..62];
    assert_eq!(encrypt(key62, IV, &data), Err(ErrorKind::InvalidKeyOrIvLength));
    let key66 = format!("{}aa", KEY);
    assert_eq!(encrypt(&key66, IV, &data), Err(ErrorKind::InvalidKeyOrIvLength));
    assert_eq!(decrypt(key62, IV, &data), Err(ErrorKind::InvalidKeyOrIvLength));
}

#[test]
fn key_format_errors() {
    let data = b"hello".to_vec();
    let zz_key = "zz".repeat(32);
    assert_eq!(encrypt(&zz_key, IV, &data), Err(ErrorKind::InvalidKeyFormat));
    let odd_key = &KEY[..63];
    assert_eq!(encrypt(odd_key, IV, &data), Err(ErrorKind::InvalidKeyFormat));
    assert_eq!(decrypt(&zz_key, IV, &data), Err(ErrorKind::InvalidKeyFormat));
}

#[test]
fn iv_errors() {
    let data = b"hello".to_vec();
    assert_eq!(encrypt(KEY, "not-hex!", &data), Err(ErrorKind::InvalidIvFormat));
    assert_eq!(encrypt(KEY, &IV[..30], &data), Err(ErrorKind::InvalidKeyOrIvLength));
    // The key is checked before the IV.
    assert_eq!(encrypt("zz", "not-hex!", &data), Err(ErrorKind::InvalidKeyFormat));
}

#[test]
fn uppercase_hex_accepted() {
    let data = b"hello".to_vec();
    let upper_key = KEY.to_uppercase();
    let upper_iv = IV.to_uppercase();
    let ct_upper = encrypt(&upper_key, &upper_iv, &data).unwrap();
    let ct_lower = encrypt(KEY, IV, &data).unwrap();
    assert_eq!(ct_upper, ct_lower);
}
