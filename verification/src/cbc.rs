//! Cipher-block-chaining over the AES-256 block transform.
//!
//! The mode itself is plain sequence logic and is verified here: each
//! plaintext block is xored with the previous ciphertext block (the IV for
//! the first) before the block transform, and the chain runs the other way
//! round for decryption. Both executable transforms carry their own inverse
//! in their contracts, which is what the round-trip law rests on.

use crate::aesblock::{
    aes256_decrypt_block, aes256_decrypt_block_spec, aes256_encrypt_block,
    aes256_encrypt_block_spec,
};
use vstd::prelude::*;
use vstd::slice::{slice_index_get, slice_subrange, slice_to_vec};

verus! {

/// Bytewise exclusive or of two equal-length byte strings.
pub open spec fn xor_seq(a: Seq<u8>, b: Seq<u8>) -> Seq<u8> {
    Seq::new(a.len(), |i: int| a[i] ^ b[i])
}

/// Xoring with the same mask twice gives the original back.
proof fn lemma_xor_seq_involution(a: Seq<u8>, b: Seq<u8>)
    requires
        a.len() == b.len(),
    ensures
        xor_seq(xor_seq(a, b), b) == a,
{
    assert forall|i: int| 0 <= i < a.len() implies xor_seq(xor_seq(a, b), b)[i] == a[i] by {
        let x = a[i];
        let y = b[i];
        assert((x ^ y) ^ y == x) by (bit_vector);
    }
    assert(xor_seq(xor_seq(a, b), b) =~= a);
}

/// The CBC ciphertext of `pt` (whole 16-byte blocks) with chaining value
/// `prev` before the first block.
pub open spec fn cbc_encrypt_blocks(key: Seq<u8>, prev: Seq<u8>, pt: Seq<u8>) -> Seq<u8>
    decreases pt.len(),
{
    if pt.len() < 16 {
        Seq::empty()
    } else {
        let c = aes256_encrypt_block_spec(key, xor_seq(pt.take(16), prev));
        c + cbc_encrypt_blocks(key, c, pt.skip(16))
    }
}

/// The CBC decryption of `ct` (whole 16-byte blocks) with chaining value
/// `prev` before the first block.
pub open spec fn cbc_decrypt_blocks(key: Seq<u8>, prev: Seq<u8>, ct: Seq<u8>) -> Seq<u8>
    decreases ct.len(),
{
    if ct.len() < 16 {
        Seq::empty()
    } else {
        xor_seq(aes256_decrypt_block_spec(key, ct.take(16)), prev) + cbc_decrypt_blocks(
            key,
            ct.take(16),
            ct.skip(16),
        )
    }
}

/// The chaining value after encrypting `pt`: `prev` while no block has been
/// processed, else the last ciphertext block.
pub open spec fn cbc_chain(key: Seq<u8>, prev: Seq<u8>, pt: Seq<u8>) -> Seq<u8>
    decreases pt.len(),
{
    if pt.len() < 16 {
        prev
    } else {
        cbc_chain(key, aes256_encrypt_block_spec(key, xor_seq(pt.take(16), prev)), pt.skip(16))
    }
}

/// The last 16 bytes of `s`, or `prev` when `s` holds no whole block.
pub open spec fn last_block(prev: Seq<u8>, s: Seq<u8>) -> Seq<u8> {
    if s.len() < 16 {
        prev
    } else {
        s.subrange(s.len() - 16, s.len() as int)
    }
}

/// Encrypting one more block appends one ciphertext block, chained on the
/// last ciphertext block so far.
proof fn lemma_cbc_encrypt_snoc(key: Seq<u8>, prev: Seq<u8>, m: Seq<u8>, b: Seq<u8>)
    requires
        m.len() % 16 == 0,
        b.len() == 16,
    ensures
        ({
            let c = aes256_encrypt_block_spec(key, xor_seq(b, cbc_chain(key, prev, m)));
            &&& cbc_encrypt_blocks(key, prev, m + b) == cbc_encrypt_blocks(key, prev, m) + c
            &&& cbc_chain(key, prev, m + b) == c
        }),
    decreases m.len(),
{
    let c = aes256_encrypt_block_spec(key, xor_seq(b, cbc_chain(key, prev, m)));
    if m.len() == 0 {
        reveal_with_fuel(cbc_encrypt_blocks, 2);
        reveal_with_fuel(cbc_chain, 2);
        assert(m + b =~= b);
        assert(b.take(16) =~= b);
        assert(b.skip(16) =~= Seq::<u8>::empty());
        assert(cbc_encrypt_blocks(key, prev, m + b) =~= cbc_encrypt_blocks(key, prev, m) + c);
    } else {
        let c0 = aes256_encrypt_block_spec(key, xor_seq(m.take(16), prev));
        assert((m + b).take(16) =~= m.take(16));
        assert((m + b).skip(16) =~= m.skip(16) + b);
        lemma_cbc_encrypt_snoc(key, c0, m.skip(16), b);
        assert(cbc_encrypt_blocks(key, prev, m + b) =~= cbc_encrypt_blocks(key, prev, m) + c);
    }
}

/// Decrypting one more block appends one plaintext block, chained on the
/// last ciphertext block so far.
proof fn lemma_cbc_decrypt_snoc(key: Seq<u8>, prev: Seq<u8>, ct: Seq<u8>, c: Seq<u8>)
    requires
        ct.len() % 16 == 0,
        c.len() == 16,
    ensures
        cbc_decrypt_blocks(key, prev, ct + c) == cbc_decrypt_blocks(key, prev, ct) + xor_seq(
            aes256_decrypt_block_spec(key, c),
            last_block(prev, ct),
        ),
    decreases ct.len(),
{
    if ct.len() == 0 {
        reveal_with_fuel(cbc_decrypt_blocks, 2);
        assert(ct + c =~= c);
        assert(c.take(16) =~= c);
        assert(c.skip(16) =~= Seq::<u8>::empty());
        assert(cbc_decrypt_blocks(key, prev, ct + c) =~= cbc_decrypt_blocks(key, prev, ct)
            + xor_seq(aes256_decrypt_block_spec(key, c), last_block(prev, ct)));
    } else {
        assert((ct + c).take(16) =~= ct.take(16));
        assert((ct + c).skip(16) =~= ct.skip(16) + c);
        lemma_cbc_decrypt_snoc(key, ct.take(16), ct.skip(16), c);
        if ct.len() == 16 {
            assert(last_block(ct.take(16), ct.skip(16)) =~= ct.subrange(
                ct.len() - 16,
                ct.len() as int,
            ));
        } else {
            assert(last_block(ct.take(16), ct.skip(16)) =~= ct.subrange(
                ct.len() - 16,
                ct.len() as int,
            ));
        }
        assert(cbc_decrypt_blocks(key, prev, ct + c) =~= cbc_decrypt_blocks(key, prev, ct)
            + xor_seq(aes256_decrypt_block_spec(key, c), last_block(prev, ct)));
    }
}

/// Bytewise exclusive or of two equal-length slices.
fn xor_bytes(a: &[u8], b: &[u8]) -> (r: Vec<u8>)
    requires
        a@.len() == b@.len(),
    ensures
        r@ == xor_seq(a@, b@),
{
    let n = a.len();
    let mut out: Vec<u8> = Vec::new();
    let mut i: usize = 0;
    while i < n
        invariant
            n == a@.len(),
            a@.len() == b@.len(),
            i <= n,
            out@.len() == i,
            forall|j: int| 0 <= j < i ==> out@[j] == (a@[j] ^ b@[j]),
        decreases n - i,
    {
        out.push(*slice_index_get(a, i) ^ *slice_index_get(b, i));
        i = i + 1;
    }
    proof {
        assert(out@ =~= xor_seq(a@, b@));
    }
    out
}

/// CBC-encrypt a whole number of 16-byte blocks. The second `ensures` clause
/// records that CBC decryption maps the result back to `pt`.
pub fn cbc_encrypt(key: &[u8], iv: &[u8], pt: &[u8]) -> (r: Vec<u8>)
    requires
        key@.len() == 32,
        iv@.len() == 16,
        pt@.len() % 16 == 0,
    ensures
        r@ == cbc_encrypt_blocks(key@, iv@, pt@),
        cbc_decrypt_blocks(key@, iv@, r@) == pt@,
        r@.len() == pt@.len(),
{
    let mut out: Vec<u8> = Vec::new();
    let mut prev: Vec<u8> = slice_to_vec(iv);
    let n = pt.len();
    let mut i: usize = 0;
    while i < n
        invariant
            key@.len() == 32,
            iv@.len() == 16,
            pt@.len() % 16 == 0,
            n == pt@.len(),
            i <= n,
            i % 16 == 0,
            out@.len() == i,
            prev@.len() == 16,
            out@ == cbc_encrypt_blocks(key@, iv@, pt@.take(i as int)),
            prev@ == cbc_chain(key@, iv@, pt@.take(i as int)),
            cbc_decrypt_blocks(key@, iv@, out@) == pt@.take(i as int),
            prev@ == last_block(iv@, out@),
        decreases n - i,
    {
        let block = slice_subrange(pt, i, i + 16);
        let x = xor_bytes(block, prev.as_slice());
        let mut c = aes256_encrypt_block(key, x.as_slice());
        proof {
            let m = pt@.take(i as int);
            let b = pt@.subrange(i as int, i as int + 16);
            assert(pt@.take(i as int + 16) =~= m + b);
            lemma_cbc_encrypt_snoc(key@, iv@, m, b);
            lemma_cbc_decrypt_snoc(key@, iv@, out@, c@);
            lemma_xor_seq_involution(b, prev@);
        }
        prev = slice_to_vec(c.as_slice());
        out.append(&mut c);
        i = i + 16;
        proof {
            assert(out@.subrange(out@.len() - 16, out@.len() as int) =~= prev@);
        }
    }
    proof {
        assert(pt@.take(n as int) =~= pt@);
    }
    out
}

/// CBC-decrypt a whole number of 16-byte blocks. The second `ensures` clause
/// records that CBC encryption maps the result back to `ct`.
pub fn cbc_decrypt(key: &[u8], iv: &[u8], ct: &[u8]) -> (r: Vec<u8>)
    requires
        key@.len() == 32,
        iv@.len() == 16,
        ct@.len() % 16 == 0,
    ensures
        r@ == cbc_decrypt_blocks(key@, iv@, ct@),
        cbc_encrypt_blocks(key@, iv@, r@) == ct@,
        r@.len() == ct@.len(),
{
    let mut out: Vec<u8> = Vec::new();
    let mut prev: Vec<u8> = slice_to_vec(iv);
    let n = ct.len();
    let mut i: usize = 0;
    while i < n
        invariant
            key@.len() == 32,
            iv@.len() == 16,
            ct@.len() % 16 == 0,
            n == ct@.len(),
            i <= n,
            i % 16 == 0,
            out@.len() == i,
            prev@.len() == 16,
            out@ == cbc_decrypt_blocks(key@, iv@, ct@.take(i as int)),
            cbc_encrypt_blocks(key@, iv@, out@) == ct@.take(i as int),
            cbc_chain(key@, iv@, out@) == prev@,
            prev@ == last_block(iv@, ct@.take(i as int)),
        decreases n - i,
    {
        let cblock = slice_subrange(ct, i, i + 16);
        let d = aes256_decrypt_block(key, cblock);
        let mut p = xor_bytes(d.as_slice(), prev.as_slice());
        proof {
            let done = ct@.take(i as int);
            assert(ct@.take(i as int + 16) =~= done + cblock@);
            lemma_cbc_decrypt_snoc(key@, iv@, done, cblock@);
            lemma_cbc_encrypt_snoc(key@, iv@, out@, p@);
            lemma_xor_seq_involution(d@, prev@);
        }
        prev = slice_to_vec(cblock);
        out.append(&mut p);
        i = i + 16;
        proof {
            assert(ct@.take(i as int).subrange(i - 16, i as int) =~= prev@);
        }
    }
    proof {
        assert(ct@.take(n as int) =~= ct@);
    }
    out
}

} // verus!
