//! The device's audit log: its entries as they travel on the wire.
//!
//! An entry is 32 bytes: the number of the entry (2), the command (1), the
//! length of the command (2), the session key (2), the target key (2), the
//! second key (2), the result (1), the device's tick count (4) and a digest
//! (16). The answer to a request for the log is a header of 5 bytes, the
//! counts of unlogged boot events (2) and unlogged authentication events (2)
//! and the number of entries (1), followed by that many entries.

use vstd::prelude::*;
use vstd::string::StringExecFns;
use crate::command::{lemma_command_code_round_trip, CommandCode};
use crate::error::HsmError;
use crate::response::{lemma_response_code_round_trip, ResponseCode};
use crate::wire::{
    be16, be32, from_be16, from_be32, lemma_be16_round_trip, lemma_be32_round_trip, push_bytes,
    push_u16, push_u32, read_u16, read_u32,
};

verus! {

/// Size of a truncated digest in the log.
pub const LOG_DIGEST_SIZE: usize = 16;

/// Size of the fields of an entry that come before its digest.
pub const LOG_FIELDS_SIZE: usize = 16;

/// Size of an entry on the wire.
pub const LOG_ENTRY_SIZE: usize = 32;

/// Size of what comes before the entries in the answer to a request for the
/// log.
pub const LOG_HEADER_SIZE: usize = 5;

/// Identifier of an object that the device stores.
pub type ObjectId = u16;

/// The identifier that stands for "no object" in a log entry.
pub const NO_OBJECT: ObjectId = 0xffff;

/// Truncated SHA-256 digest of a log entry and the previous log digest.
#[derive(Clone, Copy, Debug, PartialEq, Eq)]
pub struct LogDigest(pub [u8; LOG_DIGEST_SIZE]);

impl View for LogDigest {
    type V = Seq<u8>;

    open spec fn view(&self) -> Seq<u8> {
        self.0@
    }
}

impl AsRef<[u8]> for LogDigest {
    /// The 16 bytes of the digest.
    fn as_ref(&self) -> (r: &[u8])
        ensures
            r@ == self@,
    {
        self.0.as_slice()
    }
}

/// Entry in the log.
#[derive(Clone, Copy, Debug, PartialEq, Eq)]
pub struct LogEntry {
    /// Entry number. It wraps from `0xffff` to `0`.
    pub item: u16,
    /// Command that the entry records.
    pub cmd: CommandCode,
    /// Length of the command.
    pub length: u16,
    /// Key of the session that ran the command, or `NO_OBJECT`.
    pub session_key: ObjectId,
    /// Key that the command was aimed at, or `NO_OBJECT`.
    pub target_key: ObjectId,
    /// Second key that the command affected, or `NO_OBJECT`.
    pub second_key: ObjectId,
    /// Result of the command.
    pub result: ResponseCode,
    /// Tick count of the device's internal clock.
    pub tick: u32,
    /// Digest of this entry's fields and of the digest of the previous entry.
    pub digest: LogDigest,
}

/// A log entry as a mathematical value.
pub struct LogEntryView {
    pub item: u16,
    pub cmd: CommandCode,
    pub length: u16,
    pub session_key: ObjectId,
    pub target_key: ObjectId,
    pub second_key: ObjectId,
    pub result: ResponseCode,
    pub tick: u32,
    pub digest: Seq<u8>,
}

impl View for LogEntry {
    type V = LogEntryView;

    open spec fn view(&self) -> LogEntryView {
        LogEntryView {
            item: self.item,
            cmd: self.cmd,
            length: self.length,
            session_key: self.session_key,
            target_key: self.target_key,
            second_key: self.second_key,
            result: self.result,
            tick: self.tick,
            digest: self.digest@,
        }
    }
}

impl LogEntryView {
    /// The 16 bytes that stand for the fields before the digest.
    pub open spec fn fields(self) -> Seq<u8> {
        be16(self.item) + seq![self.cmd.byte()] + be16(self.length) + be16(self.session_key)
            + be16(self.target_key) + be16(self.second_key) + seq![self.result.byte()] + be32(
            self.tick,
        )
    }

    /// The 32 bytes that stand for the entry.
    pub open spec fn encode(self) -> Seq<u8> {
        self.fields() + self.digest
    }

    /// The entry that `b` stands for: `b` has exactly 32 bytes, and its command
    /// and result bytes are known.
    pub open spec fn decode(b: Seq<u8>) -> Option<LogEntryView> {
        if b.len() != LOG_ENTRY_SIZE {
            None
        } else {
            match (CommandCode::of_byte(b[2]), ResponseCode::of_byte(b[11])) {
                (Some(cmd), Some(result)) => Some(
                    LogEntryView {
                        item: from_be16(b[0], b[1]),
                        cmd,
                        length: from_be16(b[3], b[4]),
                        session_key: from_be16(b[5], b[6]),
                        target_key: from_be16(b[7], b[8]),
                        second_key: from_be16(b[9], b[10]),
                        result,
                        tick: from_be32(b[12], b[13], b[14], b[15]),
                        digest: b.subrange(16, 32),
                    },
                ),
                _ => None,
            }
        }
    }
}

/// Decoding the bytes of an entry gives the entry back.
pub proof fn lemma_entry_decode_encode(e: LogEntryView)
    requires
        e.digest.len() == LOG_DIGEST_SIZE,
    ensures
        e.fields().len() == LOG_FIELDS_SIZE,
        e.encode().len() == LOG_ENTRY_SIZE,
        LogEntryView::decode(e.encode()) == Some(e),
{
    let b = e.encode();
    lemma_be16_round_trip(e.item, 0, 0);
    lemma_be16_round_trip(e.length, 0, 0);
    lemma_be16_round_trip(e.session_key, 0, 0);
    lemma_be16_round_trip(e.target_key, 0, 0);
    lemma_be16_round_trip(e.second_key, 0, 0);
    lemma_be32_round_trip(e.tick, 0, 0, 0, 0);
    lemma_command_code_round_trip(e.cmd, 0);
    lemma_response_code_round_trip(e.result, 0);
    assert(b.subrange(16, 32) =~= e.digest);
}

/// Bytes that decode to an entry are the bytes of that entry.
pub proof fn lemma_entry_encode_decode(b: Seq<u8>)
    requires
        LogEntryView::decode(b) is Some,
    ensures
        LogEntryView::decode(b)->0.encode() == b,
        LogEntryView::decode(b)->0.digest.len() == LOG_DIGEST_SIZE,
{
    let e = LogEntryView::decode(b)->0;
    lemma_be16_round_trip(0, b[0], b[1]);
    lemma_be16_round_trip(0, b[3], b[4]);
    lemma_be16_round_trip(0, b[5], b[6]);
    lemma_be16_round_trip(0, b[7], b[8]);
    lemma_be16_round_trip(0, b[9], b[10]);
    lemma_be32_round_trip(0, b[12], b[13], b[14], b[15]);
    lemma_command_code_round_trip(CommandCode::Unknown, b[2]);
    lemma_response_code_round_trip(ResponseCode::Unknown, b[11]);
    assert(be16(e.item) =~= seq![b[0], b[1]]);
    assert(e.encode() =~= b);
}

/// The hexadecimal digit of a number below 16, in lower case.
pub open spec fn hex_char(n: u8) -> char {
    match n {
        0 => '0',
        1 => '1',
        2 => '2',
        3 => '3',
        4 => '4',
        5 => '5',
        6 => '6',
        7 => '7',
        8 => '8',
        9 => '9',
        10 => 'a',
        11 => 'b',
        12 => 'c',
        13 => 'd',
        14 => 'e',
        _ => 'f',
    }
}

/// The two hexadecimal digits of a byte.
pub open spec fn hex_byte(b: u8) -> Seq<char> {
    seq![hex_char(b / 16), hex_char(b % 16)]
}

/// The bytes in hexadecimal, with a colon between one byte and the next.
pub open spec fn hex_joined(bytes: Seq<u8>) -> Seq<char>
    decreases bytes.len(),
{
    if bytes.len() == 0 {
        Seq::empty()
    } else if bytes.len() == 1 {
        hex_byte(bytes[0])
    } else {
        hex_joined(bytes.drop_last()) + seq![':'] + hex_byte(bytes.last())
    }
}

/// A digest as text: `LogDigest(`, its bytes in hexadecimal with colons
/// between them, and `)`.
pub open spec fn digest_text(digest: Seq<u8>) -> Seq<char> {
    "LogDigest("@ + hex_joined(digest) + seq![')']
}

/// The hexadecimal digit of a number below 16, as a string.
fn hex_digit(n: u8) -> (r: &'static str)
    requires
        n < 16,
    ensures
        r@ == seq![hex_char(n)],
{
    proof {
        reveal_strlit("0");
        reveal_strlit("1");
        reveal_strlit("2");
        reveal_strlit("3");
        reveal_strlit("4");
        reveal_strlit("5");
        reveal_strlit("6");
        reveal_strlit("7");
        reveal_strlit("8");
        reveal_strlit("9");
        reveal_strlit("a");
        reveal_strlit("b");
        reveal_strlit("c");
        reveal_strlit("d");
        reveal_strlit("e");
        reveal_strlit("f");
    }
    let r = match n {
        0 => "0",
        1 => "1",
        2 => "2",
        3 => "3",
        4 => "4",
        5 => "5",
        6 => "6",
        7 => "7",
        8 => "8",
        9 => "9",
        10 => "a",
        11 => "b",
        12 => "c",
        13 => "d",
        14 => "e",
        _ => "f",
    };
    assert(r@ =~= seq![hex_char(n)]);
    r
}

impl LogDigest {
    /// The digest as text, as a log is shown: `LogDigest(`, the 16 bytes in
    /// hexadecimal with colons between them, and `)`.
    pub fn to_text(&self) -> (r: String)
        ensures
            r@ == digest_text(self@),
    {
        let mut text = String::from_str("LogDigest(");
        let mut i: usize = 0;
        assert(self@.subrange(0, 0) =~= Seq::<u8>::empty());
        while i < LOG_DIGEST_SIZE
            invariant
                i <= LOG_DIGEST_SIZE,
                text@ == "LogDigest("@ + hex_joined(self@.subrange(0, i as int)),
            decreases LOG_DIGEST_SIZE - i,
        {
            let b: u8 = self.0[i];
            let ghost before = text@;
            if i > 0 {
                proof {
                    reveal_strlit(":");
                }
                text.append(":");
            }
            text.append(hex_digit(b / 16));
            text.append(hex_digit(b % 16));
            proof {
                let upto = self@.subrange(0, i + 1);
                assert(upto.drop_last() =~= self@.subrange(0, i as int));
                assert(upto.last() == b);
                if i == 0 {
                    assert(text@ =~= before + hex_byte(b));
                } else {
                    assert(text@ =~= before + seq![':'] + hex_byte(b));
                }
                assert(text@ =~= "LogDigest("@ + hex_joined(upto));
            }
            i += 1;
        }
        proof {
            reveal_strlit(")");
            assert(self@.subrange(0, i as int) =~= self@);
        }
        text.append(")");
        assert(text@ =~= digest_text(self@));
        text
    }

    /// Reads the 16 bytes of a digest at offset `at`.
    pub(crate) fn read(bytes: &[u8], at: usize) -> (r: LogDigest)
        requires
            at + LOG_DIGEST_SIZE <= bytes.len(),
        ensures
            r@ == bytes@.subrange(at as int, at + LOG_DIGEST_SIZE),
    {
        let mut d: [u8; LOG_DIGEST_SIZE] = [0u8; LOG_DIGEST_SIZE];
        let mut i: usize = 0;
        while i < LOG_DIGEST_SIZE
            invariant
                i <= LOG_DIGEST_SIZE,
                at + LOG_DIGEST_SIZE <= bytes.len(),
                forall|j: int| 0 <= j < i ==> d@[j] == bytes@[at + j],
            decreases LOG_DIGEST_SIZE - i,
        {
            d[i] = bytes[at + i];
            i += 1;
        }
        assert(d@ =~= bytes@.subrange(at as int, at + LOG_DIGEST_SIZE));
        LogDigest(d)
    }
}

impl LogEntry {
    /// Appends the 16 bytes of the fields before the digest to `out`.
    pub fn encode_fields_into(&self, out: &mut Vec<u8>)
        ensures
            final(out)@ == old(out)@ + self@.fields(),
    {
        push_u16(out, self.item);
        out.push(self.cmd.to_u8());
        push_u16(out, self.length);
        push_u16(out, self.session_key);
        push_u16(out, self.target_key);
        push_u16(out, self.second_key);
        out.push(self.result.to_u8());
        push_u32(out, self.tick);
        assert(out@ =~= old(out)@ + self@.fields());
    }

    /// Appends the 32 bytes of the entry to `out`.
    pub fn encode_into(&self, out: &mut Vec<u8>)
        ensures
            final(out)@ == old(out)@ + self@.encode(),
    {
        self.encode_fields_into(out);
        push_bytes(out, self.digest.0.as_slice());
        assert(out@ =~= old(out)@ + self@.encode());
    }

    /// The 32 bytes of the entry.
    pub fn encode(&self) -> (r: Vec<u8>)
        ensures
            r@ == self@.encode(),
            r.len() == LOG_ENTRY_SIZE,
    {
        let mut out: Vec<u8> = Vec::new();
        self.encode_into(&mut out);
        proof {
            lemma_entry_decode_encode(self@);
            assert(out@ =~= self@.encode());
        }
        out
    }

    /// Decodes the entry that starts at offset `at`.
    pub(crate) fn decode_at(bytes: &[u8], at: usize) -> (r: Result<LogEntry, HsmError>)
        requires
            at + LOG_ENTRY_SIZE <= bytes.len(),
        ensures
            match r {
                Ok(e) => LogEntryView::decode(bytes@.subrange(at as int, at + LOG_ENTRY_SIZE))
                    == Some(e@),
                Err(err) => err == HsmError::Deserialization && LogEntryView::decode(
                    bytes@.subrange(at as int, at + LOG_ENTRY_SIZE),
                ) is None,
            },
    {
        let ghost b = bytes@.subrange(at as int, at + LOG_ENTRY_SIZE);
        assert(forall|j: int| 0 <= j < LOG_ENTRY_SIZE ==> b[j] == bytes@[at + j]);
        let cmd = match CommandCode::from_u8(bytes[at + 2]) {
            Some(c) => c,
            None => {
                return Err(HsmError::Deserialization);
            },
        };
        let result = match ResponseCode::from_u8(bytes[at + 11]) {
            Some(c) => c,
            None => {
                return Err(HsmError::Deserialization);
            },
        };
        let e = LogEntry {
            item: read_u16(bytes, at),
            cmd,
            length: read_u16(bytes, at + 3),
            session_key: read_u16(bytes, at + 5),
            target_key: read_u16(bytes, at + 7),
            second_key: read_u16(bytes, at + 9),
            result,
            tick: read_u32(bytes, at + 12),
            digest: LogDigest::read(bytes, at + 16),
        };
        assert(e.digest@ =~= b.subrange(16, 32));
        Ok(e)
    }

    /// Decodes an entry from exactly 32 bytes. Fewer or more bytes, and a
    /// command or result byte that stands for nothing, are rejected.
    pub fn decode(bytes: &[u8]) -> (r: Result<LogEntry, HsmError>)
        ensures
            match r {
                Ok(e) => LogEntryView::decode(bytes@) == Some(e@),
                Err(err) => err == HsmError::Deserialization && LogEntryView::decode(bytes@)
                    is None,
            },
            bytes.len() < LOG_ENTRY_SIZE ==> r is Err,
    {
        if bytes.len() != LOG_ENTRY_SIZE {
            return Err(HsmError::Deserialization);
        }
        assert(bytes@.subrange(0, LOG_ENTRY_SIZE as int) =~= bytes@);
        LogEntry::decode_at(bytes, 0)
    }
}

/// Response to a request for the audit log.
#[derive(Clone, Debug, PartialEq, Eq)]
pub struct LogEntries {
    /// Number of boot events which weren't logged (if the buffer is full and
    /// the audit is enforced).
    pub unlogged_boot_events: u16,
    /// Number of authentication events which weren't logged (if the buffer is
    /// full and the audit is enforced).
    pub unlogged_auth_events: u16,
    /// Number of entries in the response.
    pub num_entries: u8,
    /// Entries in the log.
    pub entries: Vec<LogEntry>,
}

/// A response to a request for the audit log as a mathematical value.
pub struct LogEntriesView {
    pub unlogged_boot_events: u16,
    pub unlogged_auth_events: u16,
    pub num_entries: u8,
    pub entries: Seq<LogEntryView>,
}

impl View for LogEntries {
    type V = LogEntriesView;

    open spec fn view(&self) -> LogEntriesView {
        LogEntriesView {
            unlogged_boot_events: self.unlogged_boot_events,
            unlogged_auth_events: self.unlogged_auth_events,
            num_entries: self.num_entries,
            entries: view_entries(self.entries@),
        }
    }
}

/// The entries of a slice as mathematical values.
pub open spec fn view_entries(entries: Seq<LogEntry>) -> Seq<LogEntryView> {
    Seq::new(entries.len(), |i: int| entries[i]@)
}

/// The bytes of the entries, one after the other.
pub open spec fn encode_all(entries: Seq<LogEntryView>) -> Seq<u8>
    decreases entries.len(),
{
    if entries.len() == 0 {
        Seq::empty()
    } else {
        encode_all(entries.drop_last()) + entries.last().encode()
    }
}

/// The bytes of the record with index `i` in a response `b`.
pub open spec fn record(b: Seq<u8>, i: int) -> Seq<u8> {
    b.subrange(LOG_HEADER_SIZE + LOG_ENTRY_SIZE * i, LOG_HEADER_SIZE + LOG_ENTRY_SIZE * (i + 1))
}

impl LogEntriesView {
    /// The declared number of entries is the number of entries, and every
    /// digest has 16 bytes.
    pub open spec fn wf(self) -> bool {
        &&& self.num_entries == self.entries.len()
        &&& forall|i: int|
            0 <= i < self.entries.len() ==> (#[trigger] self.entries[i]).digest.len()
                == LOG_DIGEST_SIZE
    }

    /// The bytes that stand for the response.
    pub open spec fn encode(self) -> Seq<u8> {
        be16(self.unlogged_boot_events) + be16(self.unlogged_auth_events) + seq![self.num_entries]
            + encode_all(self.entries)
    }

    /// The response that `b` stands for: `b` holds the header and exactly as
    /// many records as the header declares, and every record decodes.
    pub open spec fn decode(b: Seq<u8>) -> Option<LogEntriesView> {
        if b.len() < LOG_HEADER_SIZE {
            None
        } else if b.len() != LOG_HEADER_SIZE + LOG_ENTRY_SIZE * b[4] {
            None
        } else if exists|i: int|
            0 <= i < b[4] && (#[trigger] LogEntryView::decode(record(b, i))) is None {
            None
        } else {
            Some(
                LogEntriesView {
                    unlogged_boot_events: from_be16(b[0], b[1]),
                    unlogged_auth_events: from_be16(b[2], b[3]),
                    num_entries: b[4],
                    entries: Seq::new(b[4] as nat, |i: int| LogEntryView::decode(record(b, i))->0),
                },
            )
        }
    }
}

/// The bytes of `n` entries are `32 * n` bytes, and those of the entry with
/// index `i` stand at `32 * i`.
pub proof fn lemma_encode_all_records(entries: Seq<LogEntryView>, i: int)
    requires
        forall|j: int|
            0 <= j < entries.len() ==> (#[trigger] entries[j]).digest.len() == LOG_DIGEST_SIZE,
    ensures
        encode_all(entries).len() == LOG_ENTRY_SIZE * entries.len(),
        0 <= i < entries.len() ==> encode_all(entries).subrange(
            LOG_ENTRY_SIZE * i,
            LOG_ENTRY_SIZE * (i + 1),
        ) == entries[i].encode(),
    decreases entries.len(),
{
    if entries.len() > 0 {
        let front = entries.drop_last();
        lemma_encode_all_records(front, i);
        lemma_entry_decode_encode(entries.last());
        if 0 <= i < entries.len() {
            if i == entries.len() - 1 {
                assert(encode_all(entries).subrange(LOG_ENTRY_SIZE * i, LOG_ENTRY_SIZE * (i + 1))
                    =~= entries[i].encode());
            } else {
                assert(front[i] == entries[i]);
                assert(encode_all(entries).subrange(LOG_ENTRY_SIZE * i, LOG_ENTRY_SIZE * (i + 1))
                    =~= encode_all(front).subrange(LOG_ENTRY_SIZE * i, LOG_ENTRY_SIZE * (i + 1)));
            }
        }
    }
}

/// Decoding the bytes of a well-formed response gives the response back.
pub proof fn lemma_entries_decode_encode(v: LogEntriesView)
    requires
        v.wf(),
    ensures
        LogEntriesView::decode(v.encode()) == Some(v),
{
    let b = v.encode();
    lemma_be16_round_trip(v.unlogged_boot_events, 0, 0);
    lemma_be16_round_trip(v.unlogged_auth_events, 0, 0);
    lemma_encode_all_records(v.entries, 0);
    assert forall|i: int| 0 <= i < v.entries.len() implies LogEntryView::decode(record(b, i))
        == Some(v.entries[i]) by {
        lemma_encode_all_records(v.entries, i);
        lemma_entry_decode_encode(v.entries[i]);
        assert(record(b, i) =~= encode_all(v.entries).subrange(
            LOG_ENTRY_SIZE * i,
            LOG_ENTRY_SIZE * (i + 1),
        ));
    }
    let d = LogEntriesView::decode(b);
    assert(d is Some);
    assert(d->0.entries =~= v.entries);
}

/// Bytes that hold the bytes of each entry at that entry's place are the
/// bytes of the entries.
pub proof fn lemma_encode_all_from_records(entries: Seq<LogEntryView>, tail: Seq<u8>)
    requires
        tail.len() == LOG_ENTRY_SIZE * entries.len(),
        forall|i: int|
            0 <= i < entries.len() ==> tail.subrange(LOG_ENTRY_SIZE * i, LOG_ENTRY_SIZE * (i + 1))
                == (#[trigger] entries[i]).encode(),
    ensures
        encode_all(entries) == tail,
    decreases entries.len(),
{
    if entries.len() == 0 {
        assert(encode_all(entries) =~= tail);
    } else {
        let n = entries.len() as int;
        let front = entries.drop_last();
        let head = tail.subrange(0, LOG_ENTRY_SIZE * (n - 1));
        assert forall|i: int| 0 <= i < front.len() implies head.subrange(
            LOG_ENTRY_SIZE * i,
            LOG_ENTRY_SIZE * (i + 1),
        ) == (#[trigger] front[i]).encode() by {
            assert(front[i] == entries[i]);
            assert(head.subrange(LOG_ENTRY_SIZE * i, LOG_ENTRY_SIZE * (i + 1)) =~= tail.subrange(
                LOG_ENTRY_SIZE * i,
                LOG_ENTRY_SIZE * (i + 1),
            ));
        }
        lemma_encode_all_from_records(front, head);
        assert(tail.subrange(LOG_ENTRY_SIZE * (n - 1), LOG_ENTRY_SIZE * n) == entries[n
            - 1].encode());
        assert(head + tail.subrange(LOG_ENTRY_SIZE * (n - 1), LOG_ENTRY_SIZE * n) =~= tail);
    }
}

/// Bytes that decode to a response are the bytes of that response, and the
/// response is well formed.
pub proof fn lemma_entries_encode_decode(b: Seq<u8>)
    requires
        LogEntriesView::decode(b) is Some,
    ensures
        LogEntriesView::decode(b)->0.wf(),
        LogEntriesView::decode(b)->0.encode() == b,
{
    let v = LogEntriesView::decode(b)->0;
    lemma_be16_round_trip(0, b[0], b[1]);
    lemma_be16_round_trip(0, b[2], b[3]);
    let tail = b.subrange(LOG_HEADER_SIZE as int, b.len() as int);
    assert forall|i: int| 0 <= i < v.entries.len() implies (#[trigger] v.entries[i]).digest.len()
        == LOG_DIGEST_SIZE && tail.subrange(LOG_ENTRY_SIZE * i, LOG_ENTRY_SIZE * (i + 1))
        == v.entries[i].encode() by {
        assert(LogEntryView::decode(record(b, i)) is Some);
        lemma_entry_encode_decode(record(b, i));
        assert(tail.subrange(LOG_ENTRY_SIZE * i, LOG_ENTRY_SIZE * (i + 1)) =~= record(b, i));
    }
    lemma_encode_all_from_records(v.entries, tail);
    assert(v.encode() =~= b);
}

impl LogEntries {
    /// Whether the declared number of entries is the number of entries. Only
    /// such a response is what its bytes decode to.
    pub fn is_well_formed(&self) -> (r: bool)
        ensures
            r == self@.wf(),
    {
        self.num_entries as usize == self.entries.len()
    }

    /// The bytes of the response: the header, then each entry.
    pub fn encode(&self) -> (r: Vec<u8>)
        ensures
            r@ == self@.encode(),
    {
        let mut out: Vec<u8> = Vec::new();
        push_u16(&mut out, self.unlogged_boot_events);
        push_u16(&mut out, self.unlogged_auth_events);
        out.push(self.num_entries);
        let ghost header = out@;
        let mut i: usize = 0;
        while i < self.entries.len()
            invariant
                i <= self.entries.len(),
                out@ == header + encode_all(view_entries(self.entries@).subrange(0, i as int)),
            decreases self.entries.len() - i,
        {
            self.entries[i].encode_into(&mut out);
            proof {
                let all = view_entries(self.entries@);
                assert(all.subrange(0, i + 1).drop_last() =~= all.subrange(0, i as int));
                assert(all.subrange(0, i + 1).last() == self.entries@[i as int]@);
            }
            i += 1;
        }
        proof {
            let all = view_entries(self.entries@);
            assert(all.subrange(0, i as int) =~= all);
            assert(out@ =~= self@.encode());
        }
        out
    }

    /// Decodes a response. It is rejected where the header is incomplete,
    /// where what follows the header is not exactly as many records of 32
    /// bytes as the header declares, and where a record does not decode.
    pub fn decode(bytes: &[u8]) -> (r: Result<LogEntries, HsmError>)
        ensures
            match r {
                Ok(v) => LogEntriesView::decode(bytes@) == Some(v@),
                Err(err) => err == HsmError::Deserialization && LogEntriesView::decode(bytes@)
                    is None,
            },
            bytes.len() < LOG_HEADER_SIZE ==> r is Err,
    {
        if bytes.len() < LOG_HEADER_SIZE {
            return Err(HsmError::Deserialization);
        }
        let num_entries: u8 = bytes[4];
        let n: usize = num_entries as usize;
        if bytes.len() - LOG_HEADER_SIZE != LOG_ENTRY_SIZE * n {
            return Err(HsmError::Deserialization);
        }
        let mut entries: Vec<LogEntry> = Vec::new();
        let mut i: usize = 0;
        while i < n
            invariant
                i <= n,
                n == bytes@[4],
                bytes.len() == LOG_HEADER_SIZE + LOG_ENTRY_SIZE * n,
                entries@.len() == i,
                forall|j: int|
                    0 <= j < i ==> #[trigger] LogEntryView::decode(record(bytes@, j)) == Some(
                        entries@[j]@,
                    ),
            decreases n - i,
        {
            let at: usize = LOG_HEADER_SIZE + LOG_ENTRY_SIZE * i;
            assert(bytes@.subrange(at as int, at + LOG_ENTRY_SIZE) == record(bytes@, i as int));
            match LogEntry::decode_at(bytes, at) {
                Ok(e) => {
                    entries.push(e);
                },
                Err(_) => {
                    assert(LogEntryView::decode(record(bytes@, i as int)) is None);
                    return Err(HsmError::Deserialization);
                },
            }
            i += 1;
        }
        let v = LogEntries {
            unlogged_boot_events: read_u16(bytes, 0),
            unlogged_auth_events: read_u16(bytes, 2),
            num_entries,
            entries,
        };
        proof {
            let d = LogEntriesView::decode(bytes@);
            assert(d is Some);
            assert(d->0.entries =~= v@.entries);
        }
        Ok(v)
    }
}

} // verus!
