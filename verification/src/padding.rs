//! Padding of a message to whole cipher blocks: the byte `0x80`, then as few
//! zero bytes as fill the last block.

use vstd::prelude::*;
use crate::crypto::BLOCK_SIZE;
use crate::wire::{copy_range, push_bytes};

verus! {

/// The byte that marks where the padding starts.
pub const PAD_MARKER: u8 = 0x80;

/// `n` zero bytes.
pub open spec fn zeros(n: int) -> Seq<u8> {
    Seq::new(n as nat, |i: int| 0u8)
}

/// The number of zero bytes that follow the marker after a message of `n`
/// bytes.
pub open spec fn zeros_after(n: int) -> int {
    BLOCK_SIZE - 1 - n % (BLOCK_SIZE as int)
}

/// The message, the marker and the zero bytes that fill the last block.
pub open spec fn pad(message: Seq<u8>) -> Seq<u8> {
    message + seq![PAD_MARKER] + zeros(zeros_after(message.len() as int))
}

/// What is left of `padded` once its trailing zero bytes are taken away.
pub open spec fn strip_zeros(padded: Seq<u8>) -> Seq<u8>
    decreases padded.len(),
{
    if padded.len() > 0 && padded.last() == 0 {
        strip_zeros(padded.drop_last())
    } else {
        padded
    }
}

/// The message that `padded` is the padding of, if there is one: `padded` is
/// whole blocks, and its last block holds the marker followed by zero bytes
/// only.
pub open spec fn unpad(padded: Seq<u8>) -> Option<Seq<u8>> {
    let kept = strip_zeros(padded);
    if padded.len() % (BLOCK_SIZE as nat) == 0 && kept.len() > 0 && kept.last() == PAD_MARKER
        && padded.len() - kept.len() < BLOCK_SIZE {
        Some(kept.drop_last())
    } else {
        None
    }
}

/// Taking the zero bytes away from bytes that end in a byte other than zero,
/// followed by zero bytes, leaves those bytes.
proof fn lemma_strip_zeros(kept: Seq<u8>, n: int)
    requires
        n >= 0,
        kept.len() == 0 || kept.last() != 0,
    ensures
        strip_zeros(kept + zeros(n)) == kept,
    decreases n,
{
    let all = kept + zeros(n);
    if n == 0 {
        assert(all =~= kept);
    } else {
        assert(all.last() == 0);
        assert(all.drop_last() =~= kept + zeros(n - 1));
        lemma_strip_zeros(kept, n - 1);
    }
}

/// What is left after the zero bytes are taken away is a prefix that does not
/// end in zero, and what was taken away is zero.
proof fn lemma_strip_zeros_is_prefix(padded: Seq<u8>)
    ensures
        strip_zeros(padded).len() <= padded.len(),
        strip_zeros(padded).len() == 0 || strip_zeros(padded).last() != 0,
        padded == strip_zeros(padded) + zeros(padded.len() - strip_zeros(padded).len()),
    decreases padded.len(),
{
    if padded.len() > 0 && padded.last() == 0 {
        let front = padded.drop_last();
        lemma_strip_zeros_is_prefix(front);
        let kept = strip_zeros(padded);
        assert(kept == strip_zeros(front));
        assert(front == kept + zeros(front.len() - kept.len()));
        assert(padded =~= front.push(0u8));
        assert(padded =~= kept + zeros(padded.len() - kept.len()));
    } else {
        assert(padded =~= padded + zeros(0));
    }
}

/// A padded message is whole blocks, at least one, and longer than the
/// message by at most a block; taking the padding away gives the message
/// back.
pub proof fn lemma_unpad_pad(message: Seq<u8>)
    ensures
        pad(message).len() % (BLOCK_SIZE as nat) == 0,
        message.len() < pad(message).len() <= message.len() + BLOCK_SIZE,
        unpad(pad(message)) == Some(message),
{
    let n = zeros_after(message.len() as int);
    let kept = message + seq![PAD_MARKER];
    assert(pad(message) =~= kept + zeros(n));
    lemma_strip_zeros(kept, n);
    assert(kept.drop_last() =~= message);
}

/// Bytes from which the padding can be taken away are the padding of what is
/// left.
pub proof fn lemma_pad_unpad(padded: Seq<u8>)
    requires
        unpad(padded) is Some,
    ensures
        pad(unpad(padded)->0) == padded,
{
    lemma_strip_zeros_is_prefix(padded);
    let kept = strip_zeros(padded);
    let message = kept.drop_last();
    assert(kept =~= message + seq![PAD_MARKER]);
    assert(padded.len() - kept.len() == zeros_after(message.len() as int));
    assert(pad(message) =~= padded);
}

/// Pads a message to whole blocks.
pub fn pad_message(message: &[u8]) -> (r: Vec<u8>)
    requires
        message.len() <= usize::MAX - BLOCK_SIZE,
    ensures
        r@ == pad(message@),
        r.len() % BLOCK_SIZE == 0,
        message.len() < r.len() <= message.len() + BLOCK_SIZE,
{
    let mut out: Vec<u8> = Vec::new();
    push_bytes(&mut out, message);
    out.push(PAD_MARKER);
    let ghost kept = out@;
    let n: usize = BLOCK_SIZE - 1 - message.len() % BLOCK_SIZE;
    let mut i: usize = 0;
    while i < n
        invariant
            i <= n < BLOCK_SIZE,
            out@ == kept + zeros(i as int),
        decreases n - i,
    {
        out.push(0u8);
        i += 1;
        assert(out@ =~= kept + zeros(i as int));
    }
    proof {
        lemma_unpad_pad(message@);
        assert(out@ =~= pad(message@));
    }
    out
}

/// Takes the padding away. Bytes that are not the padding of any message are
/// refused.
pub fn unpad_message(padded: &[u8]) -> (r: Option<Vec<u8>>)
    ensures
        match r {
            Some(message) => unpad(padded@) == Some(message@),
            None => unpad(padded@) is None,
        },
{
    let mut end: usize = padded.len();
    assert(padded@.subrange(0, end as int) =~= padded@);
    while end > 0 && padded[end - 1] == 0
        invariant
            end <= padded.len(),
            strip_zeros(padded@) == strip_zeros(padded@.subrange(0, end as int)),
        decreases end,
    {
        proof {
            let head = padded@.subrange(0, end as int);
            assert(head.last() == 0);
            assert(head.drop_last() =~= padded@.subrange(0, end - 1));
        }
        end -= 1;
    }
    proof {
        let head = padded@.subrange(0, end as int);
        assert(strip_zeros(head) == head);
        if end > 0 {
            assert(head.last() == padded@[end - 1]);
        }
    }
    if padded.len() % BLOCK_SIZE != 0 || end == 0 || padded[end - 1] != PAD_MARKER
        || padded.len() - end >= BLOCK_SIZE {
        assert(padded@.subrange(0, padded.len() as int) =~= padded@);
        return None;
    }
    let message = copy_range(padded, 0, end - 1);
    assert(message@ =~= padded@.subrange(0, end as int).drop_last());
    Some(message)
}

} // verus!
