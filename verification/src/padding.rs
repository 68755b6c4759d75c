//! PKCS#7 padding: what encryption appends and what decryption validates
//! and strips.
//!
//! Padding always adds between 1 and 16 bytes, each holding the count, so a
//! padded buffer is a whole number of 16-byte blocks and never empty. When
//! stripping, the count read from the last byte may name at most the whole
//! buffer, and every named byte must hold the count; anything else is
//! malformed.

use vstd::prelude::*;
use vstd::slice::{slice_index_get, slice_subrange, slice_to_vec};

verus! {

/// How many bytes padding adds to a buffer of length `n`: always 1..=16,
/// and 16 exactly when `n` is already a multiple of 16.
pub open spec fn spec_pad_len(n: nat) -> nat {
    (16 - n % 16) as nat
}

/// The buffer with its PKCS#7 padding appended.
pub open spec fn spec_pkcs7_pad(pt: Seq<u8>) -> Seq<u8> {
    pt + Seq::new(spec_pad_len(pt.len()), |i: int| spec_pad_len(pt.len()) as u8)
}

/// Whether a decrypted buffer ends in well-formed padding: it is not empty,
/// its last byte `n` is between 1 and the buffer length, and the last `n`
/// bytes all hold `n`.
pub open spec fn spec_pkcs7_valid(m: Seq<u8>) -> bool {
    &&& m.len() > 0
    &&& 1 <= m.last()
    &&& m.last() as int <= m.len()
    &&& forall|i: int| m.len() - m.last() <= i < m.len() ==> #[trigger] m[i] == m.last()
}

/// The buffer with its padding stripped.
pub open spec fn spec_pkcs7_unpad(m: Seq<u8>) -> Seq<u8> {
    m.take(m.len() - m.last() as int)
}

/// Law: padding is always well formed and stripping it recovers the
/// original buffer, whatever its length.
pub proof fn lemma_pkcs7_round_trip(pt: Seq<u8>)
    ensures
        spec_pkcs7_pad(pt).len() == pt.len() + spec_pad_len(pt.len()),
        spec_pkcs7_pad(pt).len() % 16 == 0,
        spec_pkcs7_pad(pt).len() > pt.len(),
        spec_pkcs7_valid(spec_pkcs7_pad(pt)),
        spec_pkcs7_unpad(spec_pkcs7_pad(pt)) == pt,
{
    let p = spec_pad_len(pt.len());
    let m = spec_pkcs7_pad(pt);
    assert(1 <= p <= 16);
    assert(m.len() == pt.len() + p);
    assert((pt.len() + p) % 16 == 0) by {
        assert(pt.len() % 16 < 16);
    }
    assert(m.last() == p as u8);
    assert(forall|i: int| m.len() - p <= i < m.len() ==> #[trigger] m[i] == p as u8);
    assert(spec_pkcs7_unpad(m) =~= pt);
}

/// Append PKCS#7 padding to a buffer.
pub fn pkcs7_pad(pt: &[u8]) -> (r: Vec<u8>)
    ensures
        r@ == spec_pkcs7_pad(pt@),
        r@.len() == pt@.len() + spec_pad_len(pt@.len()),
        r@.len() % 16 == 0,
{
    let pad: u8 = 16 - (pt.len() % 16) as u8;
    let mut out = slice_to_vec(pt);
    let mut j: usize = 0;
    while j < pad as usize
        invariant
            pad as nat == spec_pad_len(pt@.len()),
            j <= pad as nat,
            out@ == pt@ + Seq::new(j as nat, |i: int| pad),
        decreases pad - j,
    {
        out.push(pad);
        proof {
            assert(out@ =~= pt@ + Seq::new((j + 1) as nat, |i: int| pad));
        }
        j = j + 1;
    }
    proof {
        assert(out@ =~= spec_pkcs7_pad(pt@));
        lemma_pkcs7_round_trip(pt@);
    }
    out
}

/// Validate and strip PKCS#7 padding. Returns `None` exactly when the
/// padding is malformed.
pub fn pkcs7_unpad(m: &[u8]) -> (r: Option<Vec<u8>>)
    ensures
        match r {
            Some(p) => spec_pkcs7_valid(m@) && p@ == spec_pkcs7_unpad(m@),
            None => !spec_pkcs7_valid(m@),
        },
{
    let len = m.len();
    if len == 0 {
        return None;
    }
    let n = *slice_index_get(m, len - 1);
    if n == 0 || (n as usize) > len {
        return None;
    }
    let start = len - n as usize;
    let mut i: usize = start;
    while i < len
        invariant
            len == m@.len(),
            0 < n as int <= len,
            start == len - n as int,
            start <= i <= len,
            n == m@.last(),
            forall|j: int| start <= j < i ==> #[trigger] m@[j] == n,
        decreases len - i,
    {
        if *slice_index_get(m, i) != n {
            return None;
        }
        i = i + 1;
    }
    Some(slice_to_vec(slice_subrange(m, 0, start)))
}

} // verus!
