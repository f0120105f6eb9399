//! The cryptographic primitives that the library takes from outside: SHA-256,
//! AES-128 on one block, CMAC under AES-128 and the system's random source.
//! Nothing here is proved: each function states what the primitive it calls is
//! documented to compute.

use vstd::prelude::*;
use aes::cipher::{BlockDecrypt, BlockEncrypt, KeyInit};
use cmac::Mac;
use sha2::Digest;

verus! {

/// Size of an AES-128 key.
pub const KEY_SIZE: usize = 16;

/// Size of an AES block, and of a CMAC under AES.
pub const BLOCK_SIZE: usize = 16;

/// Size of a SHA-256 digest.
pub const SHA256_SIZE: usize = 32;

/// Size of a challenge of the handshake.
pub const CHALLENGE_SIZE: usize = 8;

/// The SHA-256 digest of `data`.
pub uninterp spec fn sha256(data: Seq<u8>) -> [u8; 32];

/// The AES-128 encryption of the one block `block` under `key`.
pub uninterp spec fn aes128_encrypt_block(key: Seq<u8>, block: Seq<u8>) -> [u8; 16];

/// The AES-128 decryption of the one block `block` under `key`.
pub uninterp spec fn aes128_decrypt_block(key: Seq<u8>, block: Seq<u8>) -> [u8; 16];

/// The CMAC of `message` under AES-128 with `key`.
pub uninterp spec fn aes128_cmac(key: Seq<u8>, message: Seq<u8>) -> [u8; 16];

/// The error of the system's random source.
#[verifier::external_type_specification]
#[verifier::external_body]
pub struct ExRandomError(getrandom::Error);

/// `sha2::Sha256::digest`: the SHA-256 digest of `data`, 32 bytes.
#[verifier::external_body]
pub(crate) fn sha256_digest(data: &[u8]) -> (r: [u8; SHA256_SIZE])
    ensures
        r == sha256(data@),
{
    sha2::Sha256::digest(data).into()
}

/// `encrypt_block` of `aes::Aes128`: the encryption of one block under `key`.
#[verifier::external_body]
pub(crate) fn aes128_encrypt(
    key: &[u8; KEY_SIZE],
    block: &[u8; BLOCK_SIZE],
) -> (r: [u8; BLOCK_SIZE])
    ensures
        r == aes128_encrypt_block(key@, block@),
{
    let mut b = aes::Block::from(*block);
    aes::Aes128::new(key.into()).encrypt_block(&mut b);
    b.into()
}

/// `decrypt_block` of `aes::Aes128`: the decryption of one block under `key`.
/// It undoes the encryption under the same key: a block that is the
/// encryption of some block decrypts to that block.
#[verifier::external_body]
pub(crate) fn aes128_decrypt(
    key: &[u8; KEY_SIZE],
    block: &[u8; BLOCK_SIZE],
) -> (r: [u8; BLOCK_SIZE])
    ensures
        r == aes128_decrypt_block(key@, block@),
        forall|p: Seq<u8>|
            p.len() == BLOCK_SIZE && #[trigger] aes128_encrypt_block(key@, p) == *block ==> r@ == p,
{
    let mut b = aes::Block::from(*block);
    aes::Aes128::new(key.into()).decrypt_block(&mut b);
    b.into()
}

/// `cmac::Cmac` over `aes::Aes128`, fed `message` once and finalized: the CMAC
/// of `message` under `key`, 16 bytes.
#[verifier::external_body]
pub(crate) fn aes128_cmac_tag(key: &[u8; KEY_SIZE], message: &[u8]) -> (r: [u8; BLOCK_SIZE])
    ensures
        r == aes128_cmac(key@, message@),
{
    let mut mac = <cmac::Cmac<aes::Aes128> as Mac>::new(key.into());
    mac.update(message);
    mac.finalize().into_bytes().into()
}

/// `getrandom::getrandom` on eight bytes: random bytes from the system's
/// source, or the source's error. Nothing is known of the bytes.
#[verifier::external_body]
pub(crate) fn random_challenge() -> (r: Result<[u8; CHALLENGE_SIZE], getrandom::Error>)
{
    let mut buf = [0u8; CHALLENGE_SIZE];
    match getrandom::getrandom(&mut buf) {
        Ok(()) => Ok(buf),
        Err(e) => Err(e),
    }
}

} // verus!
