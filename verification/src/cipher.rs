//! The block cipher used by the archive format, behind a single trusted
//! wrapper. Entry payload ranges and the archive index are both encrypted
//! with AES-128 in ECB mode: each 16-byte block decrypts independently.

use vstd::prelude::*;

use aes::cipher::{BlockCipherDecrypt, KeyInit};

verus! {

/// The cipher's block size in bytes.
pub const BLOCK_SIZE: usize = 16;

/// What AES-128 decryption of one 16-byte block under a 16-byte key yields.
/// The result is a function of the key and block alone; it is 16 bytes long,
/// which `aes128_decrypt_block` states of every call.
pub uninterp spec fn aes128_block_plain(key: Seq<u8>, block: Seq<u8>) -> Seq<u8>;

/// Relies on `aes::Aes128` (`KeyInit::new` and
/// `BlockCipherDecrypt::decrypt_block`): decrypts one 16-byte block under the
/// given key, a pure function of its two arguments.
#[verifier::external_body]
pub(crate) fn aes128_decrypt_block(key: &[u8; 16], block: &[u8]) -> (r: Vec<u8>)
    requires
        block@.len() == 16,
    ensures
        r@ == aes128_block_plain(key@, block@),
        r@.len() == 16,
{
    let cipher = aes::Aes128::new(&aes::cipher::Array::from(*key));
    let mut b: aes::cipher::Array<u8, aes::cipher::consts::U16> =
        aes::cipher::Array::try_from(block).expect("block is 16 bytes");
    cipher.decrypt_block(&mut b);
    b.0.to_vec()
}

} // verus!
