//! Single-block AES-128, as the `aes` crate computes it.
use aes::cipher::{BlockDecrypt, BlockEncrypt, KeyInit};
use aes::Aes128;
use vstd::prelude::*;

verus! {

/// The AES-128 encryption of one 16-byte block under a 16-byte key.
pub uninterp spec fn aes128_encrypt_block(key: Seq<u8>, block: Seq<u8>) -> Seq<u8>;

/// The AES-128 decryption of one 16-byte block under a 16-byte key.
pub uninterp spec fn aes128_decrypt_block(key: Seq<u8>, block: Seq<u8>) -> Seq<u8>;

/// `Aes128::new` with the key, then `BlockEncrypt::encrypt_block` on a copy of
/// the block; the result is named, not described.
#[verifier::external_body]
pub(crate) fn aes128_encrypt(key: &[u8; 16], block: &[u8; 16]) -> (r: [u8; 16])
    ensures
        r@ == aes128_encrypt_block(key@, block@),
{
    let cipher = Aes128::new(&(*key).into());
    let mut data = (*block).into();
    cipher.encrypt_block(&mut data);
    data.into()
}

/// `Aes128::new` with the key, then `BlockDecrypt::decrypt_block` on a copy of
/// the block; the result is named, not described.
#[verifier::external_body]
pub(crate) fn aes128_decrypt(key: &[u8; 16], block: &[u8; 16]) -> (r: [u8; 16])
    ensures
        r@ == aes128_decrypt_block(key@, block@),
{
    let cipher = Aes128::new(&(*key).into());
    let mut data = (*block).into();
    cipher.decrypt_block(&mut data);
    data.into()
}

} // verus!
