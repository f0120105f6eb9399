//! The keys of a session and what they protect.
//!
//! Both sides derive the session's keys from the long-term credential and the
//! two challenges of the handshake, and prove to each other that they hold
//! them with a cryptogram. A message of the session is padded, encrypted in
//! CBC mode under an initial value made from the message counter, and
//! followed by a tag over the counter and the ciphertext: a frame verifies
//! only at the counter value that it was made for.

use vstd::prelude::*;
use crate::cbc_mode::{cbc_decrypt, cbc_encrypt, decrypt, encrypt, lemma_cbc_encrypt_blocks};
use crate::crypto::{
    aes128_cmac, aes128_cmac_tag, aes128_encrypt, aes128_encrypt_block, BLOCK_SIZE, CHALLENGE_SIZE,
    KEY_SIZE,
};
use crate::error::HsmError;
use crate::padding::{lemma_unpad_pad, pad, pad_message, unpad, unpad_message, zeros};
use crate::wire::{be16, be32, bytes_equal, copy_range, push_bytes, push_u16};

verus! {

/// Size of the tag that follows the ciphertext of a message.
pub const TAG_SIZE: usize = 8;

/// Size of a cryptogram of the handshake.
pub const CRYPTOGRAM_SIZE: usize = 8;

/// The longest message that can be sent in a session: padded, tagged and
/// with the session's number before it, it still fits an envelope.
pub const MAX_MESSAGE_SIZE: usize = 65519;

/// What the derivation of the device's cryptogram is labelled with.
pub const LABEL_DEVICE_CRYPTOGRAM: u8 = 0x00;

/// What the derivation of the host's cryptogram is labelled with.
pub const LABEL_HOST_CRYPTOGRAM: u8 = 0x01;

/// What the derivation of the session's encryption key is labelled with.
pub const LABEL_ENCRYPTION_KEY: u8 = 0x04;

/// What the derivation of the session's authentication key is labelled with.
pub const LABEL_MAC_KEY: u8 = 0x06;

/// The long-term secret that the host shares with the device. It is never
/// sent.
pub struct Credential {
    /// The key from which a session's encryption key is derived.
    pub enc_key: [u8; KEY_SIZE],
    /// The key from which a session's authentication key is derived.
    pub mac_key: [u8; KEY_SIZE],
}

/// The keys of one session.
pub struct SessionKeys {
    enc: [u8; KEY_SIZE],
    mac: [u8; KEY_SIZE],
}

/// What a derivation under a key authenticates: eleven zero bytes, the label,
/// a zero byte, the number of bits asked for, the byte 1 and the context.
pub open spec fn derivation_input(label: u8, size: int, context: Seq<u8>) -> Seq<u8> {
    zeros(11) + seq![label, 0u8] + be16((8 * size) as u16) + seq![1u8] + context
}

/// The `size` bytes derived from `key` for `label` and `context`: the start
/// of the CMAC of the derivation's input.
pub open spec fn kdf(key: Seq<u8>, label: u8, context: Seq<u8>, size: int) -> Seq<u8> {
    aes128_cmac(key, derivation_input(label, size, context))@.subrange(0, size)
}

/// The block that stands for a counter value: twelve zero bytes and the
/// counter, most significant byte first.
pub open spec fn counter_block(counter: u32) -> Seq<u8> {
    zeros(12) + be32(counter)
}

/// The initial value of the encryption at a counter value: the counter's
/// block, encrypted.
pub open spec fn initial_value(enc: Seq<u8>, counter: u32) -> Seq<u8> {
    aes128_encrypt_block(enc, counter_block(counter))@
}

/// The tag of the ciphertext `body` at a counter value: the first eight bytes
/// of the CMAC of the counter's block followed by the ciphertext.
pub open spec fn tag(mac: Seq<u8>, counter: u32, body: Seq<u8>) -> Seq<u8> {
    aes128_cmac(mac, counter_block(counter) + body)@.subrange(0, TAG_SIZE as int)
}

/// The ciphertext of a message at a counter value.
pub open spec fn ciphertext(enc: Seq<u8>, counter: u32, message: Seq<u8>) -> Seq<u8> {
    cbc_encrypt(enc, initial_value(enc, counter), pad(message))
}

/// The frame that protects a message at a counter value: the ciphertext of
/// the padded message, then its tag.
pub open spec fn sealed(enc: Seq<u8>, mac: Seq<u8>, counter: u32, message: Seq<u8>) -> Seq<u8> {
    ciphertext(enc, counter, message) + tag(mac, counter, ciphertext(enc, counter, message))
}

/// The ciphertext of a frame: all but its last eight bytes.
pub open spec fn body_of(frame: Seq<u8>) -> Seq<u8> {
    frame.subrange(0, frame.len() - TAG_SIZE)
}

/// The tag of a frame: its last eight bytes.
pub open spec fn tag_of(frame: Seq<u8>) -> Seq<u8> {
    frame.subrange(frame.len() - TAG_SIZE, frame.len() as int)
}

/// Whether a frame holds at least one block of ciphertext, whole blocks only,
/// and the tag of that ciphertext at the counter value.
pub open spec fn authentic(mac: Seq<u8>, counter: u32, frame: Seq<u8>) -> bool {
    &&& frame.len() >= BLOCK_SIZE + TAG_SIZE
    &&& (frame.len() - TAG_SIZE) % (BLOCK_SIZE as int) == 0
    &&& tag_of(frame) == tag(mac, counter, body_of(frame))
}

/// The message that a frame protects at a counter value, where the frame is
/// authentic and what it decrypts to is the padding of a message.
pub open spec fn opened(enc: Seq<u8>, mac: Seq<u8>, counter: u32, frame: Seq<u8>) -> Option<
    Seq<u8>,
> {
    if authentic(mac, counter, frame) {
        unpad(cbc_decrypt(enc, initial_value(enc, counter), body_of(frame)))
    } else {
        None
    }
}

/// The frame of a message is its ciphertext, in whole blocks, followed by the
/// tag of that ciphertext.
pub proof fn lemma_sealed_parts(enc: Seq<u8>, mac: Seq<u8>, counter: u32, message: Seq<u8>)
    ensures
        ciphertext(enc, counter, message).len() == pad(message).len(),
        sealed(enc, mac, counter, message).len() == pad(message).len() + TAG_SIZE,
        body_of(sealed(enc, mac, counter, message)) == ciphertext(enc, counter, message),
        tag_of(sealed(enc, mac, counter, message)) == tag(
            mac,
            counter,
            ciphertext(enc, counter, message),
        ),
        authentic(mac, counter, sealed(enc, mac, counter, message)),
{
    lemma_unpad_pad(message);
    lemma_cbc_encrypt_blocks(enc, initial_value(enc, counter), pad(message), 0);
    let body = ciphertext(enc, counter, message);
    let frame = sealed(enc, mac, counter, message);
    assert(body_of(frame) =~= body);
    assert(tag_of(frame) =~= tag(mac, counter, body));
}

/// A frame that was made at one counter value does not open at another one,
/// unless the tags of its ciphertext at the two values are the same eight
/// bytes.
pub proof fn lemma_other_counter_is_refused(
    enc: Seq<u8>,
    mac: Seq<u8>,
    made_at: u32,
    opened_at: u32,
    message: Seq<u8>,
)
    requires
        made_at != opened_at,
        tag(mac, made_at, ciphertext(enc, made_at, message)) != tag(
            mac,
            opened_at,
            ciphertext(enc, made_at, message),
        ),
    ensures
        opened(enc, mac, opened_at, sealed(enc, mac, made_at, message)) is None,
{
    lemma_sealed_parts(enc, mac, made_at, message);
}

/// The block that stands for a counter value.
fn counter_bytes(counter: u32) -> (r: [u8; BLOCK_SIZE])
    ensures
        r@ == counter_block(counter),
{
    let mut block: [u8; BLOCK_SIZE] = [0u8; BLOCK_SIZE];
    block[12] = (counter / 0x100_0000) as u8;
    block[13] = ((counter / 0x1_0000) % 256) as u8;
    block[14] = ((counter / 0x100) % 256) as u8;
    block[15] = (counter % 256) as u8;
    assert(block@ =~= counter_block(counter));
    block
}

/// The first eight bytes of the CMAC of the counter's block followed by
/// `body`.
fn compute_tag(mac: &[u8; KEY_SIZE], counter: u32, body: &[u8]) -> (r: Vec<u8>)
    ensures
        r@ == tag(mac@, counter, body@),
        r.len() == TAG_SIZE,
{
    let block = counter_bytes(counter);
    let mut data: Vec<u8> = Vec::new();
    push_bytes(&mut data, block.as_slice());
    push_bytes(&mut data, body);
    assert(data@ =~= counter_block(counter) + body@);
    let full = aes128_cmac_tag(mac, data.as_slice());
    copy_range(full.as_slice(), 0, TAG_SIZE)
}

/// The CMAC of the derivation's input under `key`.
fn derive_block(
    key: &[u8; KEY_SIZE],
    label: u8,
    context: &[u8],
    size: u16,
) -> (r: [u8; BLOCK_SIZE])
    requires
        size <= BLOCK_SIZE,
    ensures
        r@.subrange(0, size as int) == kdf(key@, label, context@, size as int),
{
    let mut data: Vec<u8> = Vec::new();
    let mut i: usize = 0;
    while i < 11
        invariant
            i <= 11,
            data@ == zeros(i as int),
        decreases 11 - i,
    {
        data.push(0u8);
        i += 1;
        assert(data@ =~= zeros(i as int));
    }
    data.push(label);
    data.push(0u8);
    push_u16(&mut data, 8 * size);
    data.push(1u8);
    push_bytes(&mut data, context);
    assert(data@ =~= derivation_input(label, size as int, context@));
    aes128_cmac_tag(key, data.as_slice())
}

/// The two challenges, the host's first.
fn challenges(host: &[u8; CHALLENGE_SIZE], device: &[u8; CHALLENGE_SIZE]) -> (r: Vec<u8>)
    ensures
        r@ == host@ + device@,
{
    let mut context: Vec<u8> = Vec::new();
    push_bytes(&mut context, host.as_slice());
    push_bytes(&mut context, device.as_slice());
    assert(context@ =~= host@ + device@);
    context
}

/// The first eight bytes of a block.
fn first_half(block: &[u8; BLOCK_SIZE]) -> (r: [u8; CRYPTOGRAM_SIZE])
    ensures
        r@ == block@.subrange(0, CRYPTOGRAM_SIZE as int),
{
    let mut half: [u8; CRYPTOGRAM_SIZE] = [0u8; CRYPTOGRAM_SIZE];
    let mut i: usize = 0;
    while i < CRYPTOGRAM_SIZE
        invariant
            i <= CRYPTOGRAM_SIZE,
            forall|j: int| 0 <= j < i ==> half@[j] == block@[j],
        decreases CRYPTOGRAM_SIZE - i,
    {
        half[i] = block[i];
        i += 1;
    }
    assert(half@ =~= block@.subrange(0, CRYPTOGRAM_SIZE as int));
    half
}

impl SessionKeys {
    /// The key that the session encrypts with.
    pub closed spec fn enc(&self) -> Seq<u8> {
        self.enc@
    }

    /// The key that the session authenticates with.
    pub closed spec fn mac(&self) -> Seq<u8> {
        self.mac@
    }

    /// Derives the keys of a session from the credential and the two
    /// challenges of its handshake.
    pub fn derive_keys(
        credential: &Credential,
        host_challenge: &[u8; CHALLENGE_SIZE],
        device_challenge: &[u8; CHALLENGE_SIZE],
    ) -> (r: SessionKeys)
        ensures
            r.enc() == kdf(
                credential.enc_key@,
                LABEL_ENCRYPTION_KEY,
                host_challenge@ + device_challenge@,
                KEY_SIZE as int,
            ),
            r.mac() == kdf(
                credential.mac_key@,
                LABEL_MAC_KEY,
                host_challenge@ + device_challenge@,
                KEY_SIZE as int,
            ),
    {
        let context = challenges(host_challenge, device_challenge);
        let enc = derive_block(
            &credential.enc_key,
            LABEL_ENCRYPTION_KEY,
            context.as_slice(),
            KEY_SIZE as u16,
        );
        let mac = derive_block(
            &credential.mac_key,
            LABEL_MAC_KEY,
            context.as_slice(),
            KEY_SIZE as u16,
        );
        assert(enc@.subrange(0, KEY_SIZE as int) =~= enc@);
        assert(mac@.subrange(0, KEY_SIZE as int) =~= mac@);
        SessionKeys { enc, mac }
    }

    /// The cryptogram by which the host proves that it holds the session's
    /// keys.
    pub fn host_cryptogram(
        &self,
        host_challenge: &[u8; CHALLENGE_SIZE],
        device_challenge: &[u8; CHALLENGE_SIZE],
    ) -> (r: [u8; CRYPTOGRAM_SIZE])
        ensures
            r@ == kdf(
                self.mac(),
                LABEL_HOST_CRYPTOGRAM,
                host_challenge@ + device_challenge@,
                CRYPTOGRAM_SIZE as int,
            ),
    {
        let context = challenges(host_challenge, device_challenge);
        let block = derive_block(
            &self.mac,
            LABEL_HOST_CRYPTOGRAM,
            context.as_slice(),
            CRYPTOGRAM_SIZE as u16,
        );
        first_half(&block)
    }

    /// The cryptogram by which the device proves that it holds the session's
    /// keys.
    pub fn device_cryptogram(
        &self,
        host_challenge: &[u8; CHALLENGE_SIZE],
        device_challenge: &[u8; CHALLENGE_SIZE],
    ) -> (r: [u8; CRYPTOGRAM_SIZE])
        ensures
            r@ == kdf(
                self.mac(),
                LABEL_DEVICE_CRYPTOGRAM,
                host_challenge@ + device_challenge@,
                CRYPTOGRAM_SIZE as int,
            ),
    {
        let context = challenges(host_challenge, device_challenge);
        let block = derive_block(
            &self.mac,
            LABEL_DEVICE_CRYPTOGRAM,
            context.as_slice(),
            CRYPTOGRAM_SIZE as u16,
        );
        first_half(&block)
    }

    /// Overwrites the keys with zero bytes.
    pub fn wipe(&mut self)
        ensures
            final(self).enc() == zeros(KEY_SIZE as int),
            final(self).mac() == zeros(KEY_SIZE as int),
    {
        self.enc = [0u8; KEY_SIZE];
        self.mac = [0u8; KEY_SIZE];
        assert(self.enc@ =~= zeros(KEY_SIZE as int));
        assert(self.mac@ =~= zeros(KEY_SIZE as int));
    }
}

/// Protects a message at a counter value: pads it, encrypts it and appends
/// the tag of the ciphertext. A message of more than `MAX_MESSAGE_SIZE` bytes
/// is refused.
pub fn encrypt_and_mac(keys: &SessionKeys, counter: u32, message: &[u8]) -> (r: Result<
    Vec<u8>,
    HsmError,
>)
    ensures
        match r {
            Ok(frame) => message.len() <= MAX_MESSAGE_SIZE && frame@ == sealed(
                keys.enc(),
                keys.mac(),
                counter,
                message@,
            ) && frame.len() == pad(message@).len() + TAG_SIZE,
            Err(e) => e == HsmError::Protocol && message.len() > MAX_MESSAGE_SIZE,
        },
{
    if message.len() > MAX_MESSAGE_SIZE {
        return Err(HsmError::Protocol);
    }
    let padded = pad_message(message);
    let block = counter_bytes(counter);
    let iv = aes128_encrypt(&keys.enc, &block);
    let mut frame = encrypt(&keys.enc, &iv, padded.as_slice()).unwrap();
    let t = compute_tag(&keys.mac, counter, frame.as_slice());
    push_bytes(&mut frame, t.as_slice());
    proof {
        lemma_sealed_parts(keys.enc(), keys.mac(), counter, message@);
    }
    Ok(frame)
}

/// Opens a frame at a counter value: checks its tag, decrypts it and takes the
/// padding away. A frame that is too short, is not whole blocks, carries
/// another tag than that of its ciphertext at this counter value, or does not
/// decrypt to a padded message, is refused as an integrity error. A frame
/// that `encrypt_and_mac` made under the same keys at the same counter value
/// opens to the message that it was made from.
pub fn verify_and_decrypt(keys: &SessionKeys, counter: u32, frame: &[u8]) -> (r: Result<
    Vec<u8>,
    HsmError,
>)
    ensures
        match r {
            Ok(message) => opened(keys.enc(), keys.mac(), counter, frame@) == Some(message@),
            Err(e) => e == HsmError::Integrity && opened(keys.enc(), keys.mac(), counter, frame@)
                is None,
        },
        forall|message: Seq<u8>| #[trigger]
            sealed(keys.enc(), keys.mac(), counter, message) == frame@ ==> r is Ok && r->Ok_0@
                == message,
{
    if frame.len() < BLOCK_SIZE + TAG_SIZE || (frame.len() - TAG_SIZE) % BLOCK_SIZE != 0 {
        proof {
            assert forall|message: Seq<u8>| #[trigger]
                sealed(keys.enc(), keys.mac(), counter, message) == frame@ implies false by {
                lemma_sealed_parts(keys.enc(), keys.mac(), counter, message);
            }
        }
        return Err(HsmError::Integrity);
    }
    let split: usize = frame.len() - TAG_SIZE;
    let body = copy_range(frame, 0, split);
    let found = copy_range(frame, split, frame.len());
    let expected = compute_tag(&keys.mac, counter, body.as_slice());
    if !bytes_equal(expected.as_slice(), found.as_slice()) {
        proof {
            assert forall|message: Seq<u8>| #[trigger]
                sealed(keys.enc(), keys.mac(), counter, message) == frame@ implies false by {
                lemma_sealed_parts(keys.enc(), keys.mac(), counter, message);
            }
        }
        return Err(HsmError::Integrity);
    }
    let block = counter_bytes(counter);
    let iv = aes128_encrypt(&keys.enc, &block);
    let padded = decrypt(&keys.enc, &iv, body.as_slice()).unwrap();
    let r = unpad_message(padded.as_slice());
    proof {
        assert forall|message: Seq<u8>| #[trigger]
            sealed(keys.enc(), keys.mac(), counter, message) == frame@ implies padded@ == pad(
            message,
        ) by {
            lemma_sealed_parts(keys.enc(), keys.mac(), counter, message);
            assert(cbc_encrypt(keys.enc(), iv@, pad(message)) == body@);
        }
        assert forall|message: Seq<u8>| #[trigger]
            sealed(keys.enc(), keys.mac(), counter, message) == frame@ implies unpad(padded@)
            == Some(message) by {
            lemma_unpad_pad(message);
        }
    }
    match r {
        Some(message) => Ok(message),
        None => Err(HsmError::Integrity),
    }
}

} // verus!
