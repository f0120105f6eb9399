//! Cipher block chaining over AES-128: each block of the message is combined
//! with the ciphertext block before it, the first one with the initial
//! value, and then encrypted.

use vstd::prelude::*;
use crate::crypto::{
    aes128_decrypt, aes128_decrypt_block, aes128_encrypt, aes128_encrypt_block, BLOCK_SIZE,
    KEY_SIZE,
};
use crate::wire::push_bytes;

verus! {

/// The bytes of `a` and `b`, combined place by place with exclusive or.
pub open spec fn xor(a: Seq<u8>, b: Seq<u8>) -> Seq<u8> {
    Seq::new(a.len(), |i: int| a[i] ^ b[i])
}

/// The last block of the ciphertext of `plain`, or the initial value where
/// `plain` holds no block.
pub open spec fn chain_value(key: Seq<u8>, iv: Seq<u8>, plain: Seq<u8>) -> Seq<u8>
    decreases plain.len(),
{
    if plain.len() < BLOCK_SIZE {
        iv
    } else {
        let n = plain.len() - BLOCK_SIZE;
        aes128_encrypt_block(
            key,
            xor(plain.subrange(n, plain.len() as int), chain_value(key, iv, plain.subrange(0, n))),
        )@
    }
}

/// The ciphertext of `plain`, which is whole blocks.
pub open spec fn cbc_encrypt(key: Seq<u8>, iv: Seq<u8>, plain: Seq<u8>) -> Seq<u8>
    decreases plain.len(),
{
    if plain.len() < BLOCK_SIZE {
        Seq::empty()
    } else {
        cbc_encrypt(key, iv, plain.subrange(0, plain.len() - BLOCK_SIZE)) + chain_value(
            key,
            iv,
            plain,
        )
    }
}

/// The block that the ciphertext block at offset `n` was combined with: the
/// block before it, or the initial value for the first.
pub open spec fn previous_block(iv: Seq<u8>, cipher: Seq<u8>, n: int) -> Seq<u8> {
    if n < BLOCK_SIZE {
        iv
    } else {
        cipher.subrange(n - BLOCK_SIZE, n)
    }
}

/// What the ciphertext `cipher`, which is whole blocks, decrypts to.
pub open spec fn cbc_decrypt(key: Seq<u8>, iv: Seq<u8>, cipher: Seq<u8>) -> Seq<u8>
    decreases cipher.len(),
{
    if cipher.len() < BLOCK_SIZE {
        Seq::empty()
    } else {
        let n = cipher.len() - BLOCK_SIZE;
        cbc_decrypt(key, iv, cipher.subrange(0, n)) + xor(
            aes128_decrypt_block(key, cipher.subrange(n, cipher.len() as int))@,
            previous_block(iv, cipher, n),
        )
    }
}

/// Combining with the same block twice gives the first block back.
pub proof fn lemma_xor_twice(a: Seq<u8>, b: Seq<u8>)
    requires
        a.len() == b.len(),
    ensures
        xor(xor(a, b), b) == a,
{
    assert forall|i: int| 0 <= i < a.len() implies xor(xor(a, b), b)[i] == a[i] by {
        let x = a[i];
        let y = b[i];
        assert((x ^ y) ^ y == x) by (bit_vector);
    }
    assert(xor(xor(a, b), b) =~= a);
}

/// The ciphertext is as long as the message; the ciphertext of a prefix of
/// whole blocks is a prefix of the ciphertext; and the block at offset `at`
/// is the last block of the ciphertext of the message up to there.
pub proof fn lemma_cbc_encrypt_blocks(key: Seq<u8>, iv: Seq<u8>, plain: Seq<u8>, at: int)
    requires
        plain.len() % (BLOCK_SIZE as nat) == 0,
        iv.len() == BLOCK_SIZE,
        0 <= at <= plain.len(),
        at % (BLOCK_SIZE as int) == 0,
    ensures
        cbc_encrypt(key, iv, plain).len() == plain.len(),
        chain_value(key, iv, plain).len() == BLOCK_SIZE,
        cbc_encrypt(key, iv, plain).subrange(0, at) == cbc_encrypt(key, iv, plain.subrange(0, at)),
        previous_block(iv, cbc_encrypt(key, iv, plain), at) == chain_value(
            key,
            iv,
            plain.subrange(0, at),
        ),
    decreases plain.len(),
{
    let cipher = cbc_encrypt(key, iv, plain);
    if plain.len() < BLOCK_SIZE {
        assert(plain.subrange(0, at) =~= plain);
        assert(cipher.subrange(0, at) =~= cipher);
    } else {
        let n = plain.len() - BLOCK_SIZE;
        let front = plain.subrange(0, n);
        if at == plain.len() {
            lemma_cbc_encrypt_blocks(key, iv, front, n);
            assert(plain.subrange(0, at) =~= plain);
            assert(cipher.subrange(0, at) =~= cipher);
            assert(cipher.subrange(at - BLOCK_SIZE, at) =~= chain_value(key, iv, plain));
        } else {
            lemma_cbc_encrypt_blocks(key, iv, front, at);
            assert(front.subrange(0, at) =~= plain.subrange(0, at));
            assert(cipher.subrange(0, at) =~= cbc_encrypt(key, iv, front).subrange(0, at));
            if at >= BLOCK_SIZE {
                let before = cbc_encrypt(key, iv, front);
                assert(cipher.subrange(at - BLOCK_SIZE, at) =~= before.subrange(
                    at - BLOCK_SIZE,
                    at,
                ));
            }
        }
    }
}

/// A copy of the block at offset `at`.
fn read_block(bytes: &[u8], at: usize) -> (r: [u8; BLOCK_SIZE])
    requires
        at + BLOCK_SIZE <= bytes.len(),
    ensures
        r@ == bytes@.subrange(at as int, at + BLOCK_SIZE),
{
    let mut block: [u8; BLOCK_SIZE] = [0u8; BLOCK_SIZE];
    let mut i: usize = 0;
    while i < BLOCK_SIZE
        invariant
            i <= BLOCK_SIZE,
            at + BLOCK_SIZE <= bytes.len(),
            forall|j: int| 0 <= j < i ==> block@[j] == bytes@[at + j],
        decreases BLOCK_SIZE - i,
    {
        block[i] = bytes[at + i];
        i += 1;
    }
    assert(block@ =~= bytes@.subrange(at as int, at + BLOCK_SIZE));
    block
}

/// The two blocks, combined place by place with exclusive or.
fn xor_blocks(a: &[u8; BLOCK_SIZE], b: &[u8; BLOCK_SIZE]) -> (r: [u8; BLOCK_SIZE])
    ensures
        r@ == xor(a@, b@),
{
    let mut block: [u8; BLOCK_SIZE] = [0u8; BLOCK_SIZE];
    let mut i: usize = 0;
    while i < BLOCK_SIZE
        invariant
            i <= BLOCK_SIZE,
            forall|j: int| 0 <= j < i ==> block@[j] == a@[j] ^ b@[j],
        decreases BLOCK_SIZE - i,
    {
        block[i] = a[i] ^ b[i];
        i += 1;
    }
    assert(block@ =~= xor(a@, b@));
    block
}

/// Encrypts a message of whole blocks. A message that is not whole blocks
/// has no ciphertext.
pub fn encrypt(key: &[u8; KEY_SIZE], iv: &[u8; BLOCK_SIZE], plain: &[u8]) -> (r: Option<Vec<u8>>)
    ensures
        r is Some <==> plain.len() % BLOCK_SIZE == 0,
        r matches Some(cipher) ==> cipher@ == cbc_encrypt(key@, iv@, plain@) && cipher.len()
            == plain.len(),
{
    if plain.len() % BLOCK_SIZE != 0 {
        return None;
    }
    let mut out: Vec<u8> = Vec::new();
    let mut previous: [u8; BLOCK_SIZE] = *iv;
    let mut at: usize = 0;
    assert(plain@.subrange(0, 0).len() == 0);
    while at < plain.len()
        invariant
            at <= plain.len(),
            at % BLOCK_SIZE == 0,
            plain.len() % BLOCK_SIZE == 0,
            out@.len() == at,
            out@ == cbc_encrypt(key@, iv@, plain@.subrange(0, at as int)),
            previous@ == chain_value(key@, iv@, plain@.subrange(0, at as int)),
        decreases plain.len() - at,
    {
        let block = read_block(plain, at);
        let mixed = xor_blocks(&block, &previous);
        let encrypted = aes128_encrypt(key, &mixed);
        push_bytes(&mut out, encrypted.as_slice());
        proof {
            let head = plain@.subrange(0, at + BLOCK_SIZE);
            assert(head.subrange(0, head.len() - BLOCK_SIZE) =~= plain@.subrange(0, at as int));
            assert(head.subrange(head.len() - BLOCK_SIZE, head.len() as int) =~= block@);
        }
        previous = encrypted;
        at += BLOCK_SIZE;
    }
    assert(plain@.subrange(0, at as int) =~= plain@);
    Some(out)
}

/// Decrypts a ciphertext of whole blocks; bytes that are not whole blocks are
/// no ciphertext. It undoes `encrypt` under the same key and initial value.
pub fn decrypt(key: &[u8; KEY_SIZE], iv: &[u8; BLOCK_SIZE], cipher: &[u8]) -> (r: Option<Vec<u8>>)
    ensures
        r is Some <==> cipher.len() % BLOCK_SIZE == 0,
        r matches Some(plain) ==> plain@ == cbc_decrypt(key@, iv@, cipher@) && plain.len()
            == cipher.len(),
        forall|plain: Seq<u8>|
            plain.len() == cipher.len() && plain.len() % (BLOCK_SIZE as nat) == 0
                && #[trigger] cbc_encrypt(key@, iv@, plain) == cipher@ ==> r is Some && r->0@
                == plain,
{
    if cipher.len() % BLOCK_SIZE != 0 {
        return None;
    }
    let mut out: Vec<u8> = Vec::new();
    let mut previous: [u8; BLOCK_SIZE] = *iv;
    let mut at: usize = 0;
    assert(cipher@.subrange(0, 0).len() == 0);
    while at < cipher.len()
        invariant
            at <= cipher.len(),
            at % BLOCK_SIZE == 0,
            cipher.len() % BLOCK_SIZE == 0,
            out@.len() == at,
            out@ == cbc_decrypt(key@, iv@, cipher@.subrange(0, at as int)),
            previous@ == previous_block(iv@, cipher@, at as int),
            forall|plain: Seq<u8>|
                plain.len() == cipher.len() && #[trigger] cbc_encrypt(key@, iv@, plain) == cipher@
                    ==> out@ == plain.subrange(0, at as int),
        decreases cipher.len() - at,
    {
        let block = read_block(cipher, at);
        let decrypted = aes128_decrypt(key, &block);
        let plain_block = xor_blocks(&decrypted, &previous);
        let ghost before = out@;
        push_bytes(&mut out, plain_block.as_slice());
        proof {
            let head = cipher@.subrange(0, at + BLOCK_SIZE);
            assert(head.subrange(0, head.len() - BLOCK_SIZE) =~= cipher@.subrange(0, at as int));
            assert(head.subrange(head.len() - BLOCK_SIZE, head.len() as int) =~= block@);
            assert(previous_block(iv@, head, at as int) =~= previous@);
            assert forall|plain: Seq<u8>|
                plain.len() == cipher.len() && #[trigger] cbc_encrypt(key@, iv@, plain)
                    == cipher@ implies out@ == plain.subrange(0, at + BLOCK_SIZE) by {
                lemma_cbc_encrypt_blocks(key@, iv@, plain, at as int);
                lemma_cbc_encrypt_blocks(key@, iv@, plain, at + BLOCK_SIZE);
                let upto = plain.subrange(0, at + BLOCK_SIZE);
                let this = plain.subrange(at as int, at + BLOCK_SIZE);
                assert(upto.subrange(0, upto.len() - BLOCK_SIZE) =~= plain.subrange(0, at as int));
                assert(upto.subrange(upto.len() - BLOCK_SIZE, upto.len() as int) =~= this);
                let mixed = xor(this, previous@);
                assert(chain_value(key@, iv@, upto) == aes128_encrypt_block(key@, mixed)@);
                assert(previous_block(iv@, cipher@, at + BLOCK_SIZE) =~= block@);
                assert(aes128_encrypt_block(key@, mixed) =~= block);
                assert(decrypted@ == mixed);
                lemma_xor_twice(this, previous@);
                assert(before + this =~= upto);
            }
        }
        previous = block;
        at += BLOCK_SIZE;
    }
    assert(cipher@.subrange(0, at as int) =~= cipher@);
    proof {
        assert forall|plain: Seq<u8>|
            plain.len() == cipher.len() && #[trigger] cbc_encrypt(key@, iv@, plain)
                == cipher@ implies out@ == plain by {
            assert(plain.subrange(0, at as int) =~= plain);
        }
    }
    Some(out)
}

} // verus!
