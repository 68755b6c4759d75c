//! The trusted boundary around the AES-256 block cipher.
//!
//! Everything above this module is verified; the two functions here hand one
//! 16-byte block to the `aes` crate and state, without proof, that the block
//! transform is a keyed permutation: a pure function of key and block, whose
//! encrypt and decrypt directions invert each other.

use aes::cipher::generic_array::GenericArray;
use aes::{Aes256, BlockDecrypt, BlockEncrypt, NewBlockCipher};
use vstd::prelude::*;

verus! {

/// What AES-256 returns when encrypting one 16-byte block under a 32-byte
/// key. Left uninterpreted: the contracts below relate it to the `aes` crate.
pub uninterp spec fn aes256_encrypt_block_spec(key: Seq<u8>, block: Seq<u8>) -> Seq<u8>;

/// What AES-256 returns when decrypting one 16-byte block under a 32-byte
/// key: the inverse direction of `aes256_encrypt_block_spec`.
pub uninterp spec fn aes256_decrypt_block_spec(key: Seq<u8>, block: Seq<u8>) -> Seq<u8>;

/// Relies on `aes::Aes256` (`NewBlockCipher::new`, `BlockEncrypt::encrypt_block`):
/// the encryption of a 16-byte block is 16 bytes, depends on the key and the
/// block alone, and `BlockDecrypt::decrypt_block` maps it back to the block
/// (the block cipher is a keyed permutation).
#[verifier::external_body]
pub(crate) fn aes256_encrypt_block(key: &[u8], block: &[u8]) -> (r: Vec<u8>)
    requires
        key@.len() == 32,
        block@.len() == 16,
    ensures
        r@ == aes256_encrypt_block_spec(key@, block@),
        aes256_decrypt_block_spec(key@, r@) == block@,
        r@.len() == 16,
{
    let cipher = Aes256::new(GenericArray::from_slice(key));
    let mut b = GenericArray::clone_from_slice(block);
    cipher.encrypt_block(&mut b);
    b.as_slice().to_vec()
}

/// Relies on `aes::Aes256` (`NewBlockCipher::new`, `BlockDecrypt::decrypt_block`):
/// the decryption of a 16-byte block is 16 bytes, depends on the key and the
/// block alone, and `BlockEncrypt::encrypt_block` maps it back to the block.
#[verifier::external_body]
pub(crate) fn aes256_decrypt_block(key: &[u8], block: &[u8]) -> (r: Vec<u8>)
    requires
        key@.len() == 32,
        block@.len() == 16,
    ensures
        r@ == aes256_decrypt_block_spec(key@, block@),
        aes256_encrypt_block_spec(key@, r@) == block@,
        r@.len() == 16,
{
    let cipher = Aes256::new(GenericArray::from_slice(key));
    let mut b = GenericArray::clone_from_slice(block);
    cipher.decrypt_block(&mut b);
    b.as_slice().to_vec()
}

} // verus!
