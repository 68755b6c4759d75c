//! The whole-buffer encrypt and decrypt operations: hex validation of key
//! and IV, length checks, PKCS#7 padding, and the CBC transform.

use crate::cbc::{cbc_decrypt, cbc_decrypt_blocks, cbc_encrypt, cbc_encrypt_blocks};
use crate::error::ErrorKind;
use crate::hexcodec::{hex_decode, spec_hex_decode, spec_hex_ok};
use crate::padding::{
    lemma_pkcs7_round_trip, pkcs7_pad, pkcs7_unpad, spec_pad_len, spec_pkcs7_pad,
    spec_pkcs7_unpad, spec_pkcs7_valid,
};
use vstd::prelude::*;

verus! {

/// The key and IV a pair of hex strings stands for, or the error that
/// rejects them: not hex at all, or hex of the wrong length (32 key bytes
/// and 16 IV bytes are required).
pub open spec fn spec_key_iv(key_hex: Seq<char>, iv_hex: Seq<char>) -> Result<
    (Seq<u8>, Seq<u8>),
    ErrorKind,
> {
    if !spec_hex_ok(key_hex) {
        Err(ErrorKind::InvalidKeyFormat)
    } else if !spec_hex_ok(iv_hex) {
        Err(ErrorKind::InvalidIvFormat)
    } else if spec_hex_decode(key_hex).len() != 32 || spec_hex_decode(iv_hex).len() != 16 {
        Err(ErrorKind::InvalidKeyOrIvLength)
    } else {
        Ok((spec_hex_decode(key_hex), spec_hex_decode(iv_hex)))
    }
}

/// `ct` is the encryption of `pt` under `key` and `iv`: it is the CBC
/// transform of the padded plaintext, the CBC decryption maps it back to
/// the padded plaintext, and its length is the plaintext length plus the
/// padding.
pub open spec fn spec_is_encryption_of(key: Seq<u8>, iv: Seq<u8>, pt: Seq<u8>, ct: Seq<u8>) -> bool {
    &&& ct == cbc_encrypt_blocks(key, iv, spec_pkcs7_pad(pt))
    &&& cbc_decrypt_blocks(key, iv, ct) == spec_pkcs7_pad(pt)
    &&& ct.len() == pt.len() + spec_pad_len(pt.len())
}

/// What decryption of raw bytes yields: the unpadded CBC decryption when
/// the ciphertext is a non-empty whole number of blocks with well-formed
/// padding, and `DecryptionError` otherwise.
pub open spec fn spec_decrypt_bytes(key: Seq<u8>, iv: Seq<u8>, ct: Seq<u8>) -> Result<
    Seq<u8>,
    ErrorKind,
> {
    if ct.len() % 16 != 0 {
        Err(ErrorKind::DecryptionError)
    } else {
        let m = cbc_decrypt_blocks(key, iv, ct);
        if spec_pkcs7_valid(m) {
            Ok(spec_pkcs7_unpad(m))
        } else {
            Err(ErrorKind::DecryptionError)
        }
    }
}

/// Law: decrypting any ciphertext that encryption produced, under the same
/// key and IV, recovers exactly the original plaintext.
pub proof fn lemma_encrypt_decrypt_round_trip(key: Seq<u8>, iv: Seq<u8>, pt: Seq<u8>, ct: Seq<u8>)
    requires
        key.len() == 32,
        iv.len() == 16,
        spec_is_encryption_of(key, iv, pt, ct),
    ensures
        spec_decrypt_bytes(key, iv, ct) == Result::<Seq<u8>, ErrorKind>::Ok(pt),
{
    lemma_pkcs7_round_trip(pt);
}

/// Law: the ciphertext is longer than the plaintext by the padding, which
/// is `16 - L % 16` bytes for a plaintext of length `L` (16 whole bytes
/// when `L` is already a multiple of 16), so it is a non-empty whole
/// number of blocks.
pub proof fn lemma_ciphertext_len(key: Seq<u8>, iv: Seq<u8>, pt: Seq<u8>, ct: Seq<u8>)
    requires
        spec_is_encryption_of(key, iv, pt, ct),
    ensures
        ct.len() == pt.len() + (16 - pt.len() % 16),
        ct.len() % 16 == 0,
        ct.len() > pt.len(),
{
    lemma_pkcs7_round_trip(pt);
}

/// Decode and validate the key and IV hex strings.
fn key_iv_bytes(key_hex: &str, iv_hex: &str) -> (r: Result<(Vec<u8>, Vec<u8>), ErrorKind>)
    ensures
        match r {
            Ok(kiv) => spec_key_iv(key_hex@, iv_hex@) == Result::<(Seq<u8>, Seq<u8>), ErrorKind>::Ok(
                (kiv.0@, kiv.1@),
            ),
            Err(e) => spec_key_iv(key_hex@, iv_hex@) == Result::<
                (Seq<u8>, Seq<u8>),
                ErrorKind,
            >::Err(e),
        },
{
    let key = match hex_decode(key_hex) {
        Some(k) => k,
        None => {
            return Err(ErrorKind::InvalidKeyFormat);
        },
    };
    let iv = match hex_decode(iv_hex) {
        Some(v) => v,
        None => {
            return Err(ErrorKind::InvalidIvFormat);
        },
    };
    if key.len() != 32 || iv.len() != 16 {
        return Err(ErrorKind::InvalidKeyOrIvLength);
    }
    Ok((key, iv))
}

/// Encrypt a buffer under a hex key and IV: AES-256-CBC with PKCS#7
/// padding. Succeeds on every buffer once the key and IV validate, and
/// then returns the unique ciphertext of the plaintext.
pub fn encrypt(key_hex: &str, iv_hex: &str, data: &Vec<u8>) -> (r: Result<Vec<u8>, ErrorKind>)
    ensures
        match r {
            Ok(ct) => {
                &&& spec_key_iv(key_hex@, iv_hex@) matches Ok(kiv)
                &&& spec_is_encryption_of(kiv.0, kiv.1, data@, ct@)
                &&& ct@.len() == data@.len() + (16 - data@.len() % 16)
            },
            Err(e) => spec_key_iv(key_hex@, iv_hex@) == Result::<
                (Seq<u8>, Seq<u8>),
                ErrorKind,
            >::Err(e),
        },
{
    let (key, iv) = match key_iv_bytes(key_hex, iv_hex) {
        Ok(kiv) => kiv,
        Err(e) => {
            return Err(e);
        },
    };
    let padded = pkcs7_pad(data.as_slice());
    let ct = cbc_encrypt(key.as_slice(), iv.as_slice(), padded.as_slice());
    proof {
        lemma_pkcs7_round_trip(data@);
    }
    Ok(ct)
}

/// Decrypt a buffer under a hex key and IV, validating and stripping the
/// PKCS#7 padding. Once the key and IV validate, fails with
/// `DecryptionError` exactly when the buffer is not a non-empty whole
/// number of blocks whose decryption ends in well-formed padding.
pub fn decrypt(key_hex: &str, iv_hex: &str, data: &Vec<u8>) -> (r: Result<Vec<u8>, ErrorKind>)
    ensures
        match r {
            Ok(pt) => {
                &&& spec_key_iv(key_hex@, iv_hex@) matches Ok(kiv)
                &&& spec_decrypt_bytes(kiv.0, kiv.1, data@) == Result::<Seq<u8>, ErrorKind>::Ok(
                    pt@,
                )
                &&& cbc_encrypt_blocks(kiv.0, kiv.1, cbc_decrypt_blocks(kiv.0, kiv.1, data@))
                    == data@
            },
            Err(e) => match spec_key_iv(key_hex@, iv_hex@) {
                Ok(kiv) => e == ErrorKind::DecryptionError && spec_decrypt_bytes(
                    kiv.0,
                    kiv.1,
                    data@,
                ) == Result::<Seq<u8>, ErrorKind>::Err(ErrorKind::DecryptionError),
                Err(f) => e == f,
            },
        },
{
    let (key, iv) = match key_iv_bytes(key_hex, iv_hex) {
        Ok(kiv) => kiv,
        Err(e) => {
            return Err(e);
        },
    };
    if data.len() % 16 != 0 {
        return Err(ErrorKind::DecryptionError);
    }
    let m = cbc_decrypt(key.as_slice(), iv.as_slice(), data.as_slice());
    match pkcs7_unpad(m.as_slice()) {
        Some(pt) => Ok(pt),
        None => Err(ErrorKind::DecryptionError),
    }
}

} // verus!
