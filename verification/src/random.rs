//! Random key and IV generation.
//!
//! The random bytes come from the operating system's CSPRNG through the
//! `rand` crate; nothing can be promised of their values, only of their
//! count. The hex spelling around them is verified: a generated key or IV
//! always validates and decodes to the right number of bytes.

use crate::hexcodec::{
    hex_encode, is_lower_hex_digit, lemma_hex_round_trip, spec_hex_decode, spec_hex_ok,
};
use rand::Rng;
use vstd::prelude::*;

verus! {

/// Relies on `rand::Rng::fill` on a byte slice with `rand::thread_rng()`:
/// fills the whole buffer with bytes from a cryptographically secure
/// generator and leaves its length unchanged. Nothing is stated of the
/// values.
#[verifier::external_body]
fn random_bytes(n: usize) -> (r: Vec<u8>)
    ensures
        r@.len() == n,
{
    let mut buf = vec![0u8; n];
    rand::thread_rng().fill(buf.as_mut_slice());
    buf
}

/// A fresh 256-bit key as 64 lowercase hex characters. The result always
/// validates: it is well-formed hex and decodes to 32 bytes.
pub fn generate_key() -> (r: String)
    ensures
        r@.len() == 64,
        forall|i: int| 0 <= i < r@.len() ==> is_lower_hex_digit(#[trigger] r@[i]),
        spec_hex_ok(r@),
        spec_hex_decode(r@).len() == 32,
{
    let bytes = random_bytes(32);
    let r = hex_encode(bytes.as_slice());
    proof {
        lemma_hex_round_trip(bytes@);
    }
    r
}

/// A fresh 128-bit IV as 32 lowercase hex characters. The result always
/// validates: it is well-formed hex and decodes to 16 bytes.
pub fn generate_iv() -> (r: String)
    ensures
        r@.len() == 32,
        forall|i: int| 0 <= i < r@.len() ==> is_lower_hex_digit(#[trigger] r@[i]),
        spec_hex_ok(r@),
        spec_hex_decode(r@).len() == 16,
{
    let bytes = random_bytes(16);
    let r = hex_encode(bytes.as_slice());
    proof {
        lemma_hex_round_trip(bytes@);
    }
    r
}

} // verus!
