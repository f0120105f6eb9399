//! The digest chain of the audit log.
//!
//! The digest of an entry is the first 16 bytes of the SHA-256 digest of the
//! entry's 16 bytes of fields followed by the digest of the entry before it.
//! A verifier that knows the digest of the last entry that it has seen can so
//! tell whether what the device returns next was altered.

use vstd::prelude::*;
use crate::audit::{view_entries, LogDigest, LogEntries, LogEntry, LogEntryView, LOG_DIGEST_SIZE};
use crate::crypto::{sha256, sha256_digest};
use crate::error::HsmError;
use crate::wire::{bytes_equal, push_bytes};

verus! {

/// What the verifier found of one entry.
#[derive(Clone, Copy, Debug, PartialEq, Eq, Structural)]
pub enum EntryVerdict {
    /// The stored digest is the digest of the entry and its predecessor.
    Valid,
    /// The stored digest of the entry with this number is another one: the
    /// entry, or the one before it, was altered.
    DigestMismatch { item: u16 },
}

/// What the verifier found of a response to a request for the log.
#[derive(Clone, Debug, PartialEq, Eq)]
pub struct VerificationResult {
    /// The verdict on each entry, in the order of the response.
    pub verdicts: Vec<EntryVerdict>,
    /// Whether the device reports events that it did not log. The entries
    /// that are present are judged by their digests alone; this says that the
    /// history is not complete.
    pub history_incomplete: bool,
}

/// The digest that an entry with the fields `fields` has after an entry with
/// the digest `previous`.
pub open spec fn entry_digest(fields: Seq<u8>, previous: Seq<u8>) -> Seq<u8> {
    sha256(fields + previous)@.subrange(0, LOG_DIGEST_SIZE as int)
}

/// The digest that the entry with index `i` is chained to: that of the entry
/// before it, or `first` for the entry with index 0.
pub open spec fn predecessor(entries: Seq<LogEntryView>, first: Seq<u8>, i: int) -> Seq<u8> {
    if i == 0 {
        first
    } else {
        entries[i - 1].digest
    }
}

/// Whether the stored digest of the entry with index `i` is the digest of its
/// fields and its predecessor.
pub open spec fn digest_matches(entries: Seq<LogEntryView>, first: Seq<u8>, i: int) -> bool {
    entries[i].digest == entry_digest(entries[i].fields(), predecessor(entries, first, i))
}

/// The verdict on the entry with index `i`.
pub open spec fn verdict_at(entries: Seq<LogEntryView>, first: Seq<u8>, i: int) -> EntryVerdict {
    if digest_matches(entries, first, i) {
        EntryVerdict::Valid
    } else {
        EntryVerdict::DigestMismatch { item: entries[i].item }
    }
}

/// The verdicts on all entries.
pub open spec fn verdicts(entries: Seq<LogEntryView>, first: Seq<u8>) -> Seq<EntryVerdict> {
    Seq::new(entries.len(), |i: int| verdict_at(entries, first, i))
}

/// Whether every entry carries the digest of its fields and its predecessor.
pub open spec fn chain_correct(entries: Seq<LogEntryView>, first: Seq<u8>) -> bool {
    forall|i: int| 0 <= i < entries.len() ==> digest_matches(entries, first, i)
}

/// The entries with one byte of one stored digest replaced.
pub open spec fn with_digest_byte(entries: Seq<LogEntryView>, k: int, j: int, byte: u8) -> Seq<
    LogEntryView,
> {
    entries.update(k, LogEntryView { digest: entries[k].digest.update(j, byte), ..entries[k] })
}

/// Every entry of a correct chain is found valid.
pub proof fn lemma_correct_chain_is_valid(entries: Seq<LogEntryView>, first: Seq<u8>)
    requires
        chain_correct(entries, first),
    ensures
        verdicts(entries, first).len() == entries.len(),
        forall|i: int|
            0 <= i < entries.len() ==> verdicts(entries, first)[i] == EntryVerdict::Valid,
{
}

/// Where one byte of the stored digest of one entry of a correct chain is
/// changed, that entry is found to have a digest mismatch, and every entry
/// before it is still found valid.
pub proof fn lemma_changed_digest_is_found(
    entries: Seq<LogEntryView>,
    first: Seq<u8>,
    k: int,
    j: int,
    byte: u8,
)
    requires
        chain_correct(entries, first),
        0 <= k < entries.len(),
        0 <= j < entries[k].digest.len(),
        byte != entries[k].digest[j],
    ensures
        verdicts(with_digest_byte(entries, k, j, byte), first)[k] == (EntryVerdict::DigestMismatch {
            item: entries[k].item,
        }),
        forall|i: int|
            0 <= i < k ==> verdicts(with_digest_byte(entries, k, j, byte), first)[i]
                == EntryVerdict::Valid,
{
    let changed = with_digest_byte(entries, k, j, byte);
    assert(digest_matches(entries, first, k));
    assert(changed[k].fields() == entries[k].fields());
    assert(predecessor(changed, first, k) == predecessor(entries, first, k));
    assert(changed[k].digest[j] != entries[k].digest[j]);
    assert forall|i: int| 0 <= i < k implies verdicts(changed, first)[i]
        == EntryVerdict::Valid by {
        assert(digest_matches(entries, first, i));
        assert(changed[i] == entries[i]);
        assert(predecessor(changed, first, i) == predecessor(entries, first, i));
    }
}

impl EntryVerdict {
    /// The verdict as a result: a digest mismatch is a chain verification
    /// error at the entry's number.
    pub fn to_result(self) -> (r: Result<(), HsmError>)
        ensures
            r == match self {
                EntryVerdict::Valid => Ok::<(), HsmError>(()),
                EntryVerdict::DigestMismatch { item } => Err(HsmError::ChainVerification { item }),
            },
    {
        match self {
            EntryVerdict::Valid => Ok(()),
            EntryVerdict::DigestMismatch { item } => Err(HsmError::ChainVerification { item }),
        }
    }
}

impl LogEntry {
    /// The digest that this entry has after an entry with the digest
    /// `previous`.
    pub fn compute_digest(&self, previous: &LogDigest) -> (r: LogDigest)
        ensures
            r@ == entry_digest(self@.fields(), previous@),
    {
        let mut data: Vec<u8> = Vec::new();
        self.encode_fields_into(&mut data);
        push_bytes(&mut data, previous.0.as_slice());
        assert(data@ =~= self@.fields() + previous@);
        let full = sha256_digest(data.as_slice());
        LogDigest::read(full.as_slice(), 0)
    }
}

/// Walks the entries in the order of the response, which is the order of their
/// numbers, and compares the digest that each one stores with the digest of
/// its fields and of the digest before it: `first` for the first entry. The
/// numbers themselves are not compared, so a number that wraps to 0 continues
/// the chain like any other.
pub fn verify_chain(log: &LogEntries, first: &LogDigest) -> (r: VerificationResult)
    ensures
        r.verdicts@ == verdicts(log@.entries, first@),
        r.history_incomplete == (log.unlogged_boot_events != 0 || log.unlogged_auth_events != 0),
{
    let ghost entries = log@.entries;
    let mut found: Vec<EntryVerdict> = Vec::new();
    let mut i: usize = 0;
    while i < log.entries.len()
        invariant
            i <= log.entries.len(),
            entries == view_entries(log.entries@),
            found@.len() == i,
            forall|j: int| 0 <= j < i ==> found@[j] == verdict_at(entries, first@, j),
        decreases log.entries.len() - i,
    {
        let entry = &log.entries[i];
        let expected = if i == 0 {
            entry.compute_digest(first)
        } else {
            entry.compute_digest(&log.entries[i - 1].digest)
        };
        assert(expected@ == entry_digest(
            entries[i as int].fields(),
            predecessor(entries, first@, i as int),
        ));
        if bytes_equal(expected.0.as_slice(), entry.digest.0.as_slice()) {
            found.push(EntryVerdict::Valid);
        } else {
            found.push(EntryVerdict::DigestMismatch { item: entry.item });
        }
        i += 1;
    }
    assert(found@ =~= verdicts(entries, first@));
    VerificationResult {
        verdicts: found,
        history_incomplete: log.unlogged_boot_events != 0 || log.unlogged_auth_events != 0,
    }
}

} // verus!
