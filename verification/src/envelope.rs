//! The envelope around a command or a response on the wire: one byte for the
//! code, two bytes for the length of the payload, most significant first, and
//! the payload.

use vstd::prelude::*;
use crate::command::{lemma_command_round_trip, Command};
use crate::error::HsmError;
use crate::response::{lemma_response_code_round_trip, ResponseCode};
use crate::wire::{
    be16, copy_range, from_be16, lemma_be16_round_trip, push_bytes, push_u16, read_u16,
};

verus! {

/// Size of what comes before the payload.
pub const HEADER_SIZE: usize = 3;

/// The longest payload whose length fits the header.
pub const MAX_PAYLOAD_SIZE: usize = 0xffff;

/// A command as it is sent: the operation and its payload.
#[derive(Clone, Debug, PartialEq, Eq)]
pub struct CommandMessage {
    /// The operation that is asked for.
    pub command: Command,
    /// What the operation is given.
    pub payload: Vec<u8>,
}

/// A response as it is received: its code and its payload.
#[derive(Clone, Debug, PartialEq, Eq)]
pub struct ResponseMessage {
    /// What the response says of the operation.
    pub code: ResponseCode,
    /// What the operation gave back.
    pub payload: Vec<u8>,
}

/// The frame that carries `payload` under the code byte `code`.
pub open spec fn frame(code: u8, payload: Seq<u8>) -> Seq<u8> {
    seq![code] + be16(payload.len() as u16) + payload
}

/// Whether `f` has a complete header whose length field is the length of what
/// follows it.
pub open spec fn well_framed(f: Seq<u8>) -> bool {
    f.len() >= HEADER_SIZE && from_be16(f[1], f[2]) == f.len() - HEADER_SIZE
}

/// The payload of a frame: what follows its header.
pub open spec fn payload_of(f: Seq<u8>) -> Seq<u8> {
    f.subrange(HEADER_SIZE as int, f.len() as int)
}

/// The frame of a command, where its payload fits the length field.
pub open spec fn spec_encode_command(command: Command, payload: Seq<u8>) -> Option<Seq<u8>> {
    if payload.len() <= MAX_PAYLOAD_SIZE {
        Some(frame(command.byte(), payload))
    } else {
        None
    }
}

/// The command that a frame carries, where the frame is well framed and its
/// code byte is that of an operation.
pub open spec fn spec_decode_command(f: Seq<u8>) -> Option<(Command, Seq<u8>)> {
    if !well_framed(f) {
        None
    } else {
        match Command::of_byte(f[0]) {
            Some(c) => Some((c, payload_of(f))),
            None => None,
        }
    }
}

/// The frame of a response, where its payload fits the length field.
pub open spec fn spec_encode_response(code: ResponseCode, payload: Seq<u8>) -> Option<Seq<u8>> {
    if payload.len() <= MAX_PAYLOAD_SIZE {
        Some(frame(code.byte(), payload))
    } else {
        None
    }
}

/// The response that a frame carries, where the frame is well framed and its
/// code byte is a response code.
pub open spec fn spec_decode_response(f: Seq<u8>) -> Option<(ResponseCode, Seq<u8>)> {
    if !well_framed(f) {
        None
    } else {
        match ResponseCode::of_byte(f[0]) {
            Some(c) => Some((c, payload_of(f))),
            None => None,
        }
    }
}

/// A frame is well framed, and its payload is what was put into it.
pub proof fn lemma_frame(code: u8, payload: Seq<u8>)
    requires
        payload.len() <= MAX_PAYLOAD_SIZE,
    ensures
        frame(code, payload).len() == HEADER_SIZE + payload.len(),
        frame(code, payload)[0] == code,
        well_framed(frame(code, payload)),
        payload_of(frame(code, payload)) == payload,
{
    lemma_be16_round_trip(payload.len() as u16, 0, 0);
    assert(payload_of(frame(code, payload)) =~= payload);
}

/// A well-framed sequence of bytes is the frame of its code byte and payload.
pub proof fn lemma_well_framed(f: Seq<u8>)
    requires
        well_framed(f),
    ensures
        payload_of(f).len() <= MAX_PAYLOAD_SIZE,
        frame(f[0], payload_of(f)) == f,
{
    lemma_be16_round_trip(0, f[1], f[2]);
    assert(be16(payload_of(f).len() as u16) =~= seq![f[1], f[2]]);
    assert(frame(f[0], payload_of(f)) =~= f);
}

/// Decoding the frame of a command gives the command and its payload back.
pub proof fn lemma_command_decode_encode(command: Command, payload: Seq<u8>)
    requires
        payload.len() <= MAX_PAYLOAD_SIZE,
    ensures
        spec_encode_command(command, payload) is Some,
        spec_decode_command(spec_encode_command(command, payload)->0) == Some((command, payload)),
{
    lemma_frame(command.byte(), payload);
    lemma_command_round_trip(command, 0);
}

/// A frame that decodes to a command is the frame of that command.
pub proof fn lemma_command_encode_decode(f: Seq<u8>)
    requires
        spec_decode_command(f) is Some,
    ensures
        ({
            let (command, payload) = spec_decode_command(f)->0;
            spec_encode_command(command, payload) == Some(f)
        }),
{
    lemma_well_framed(f);
    lemma_command_round_trip(Command::Echo, f[0]);
}

/// Decoding the frame of a response gives the code and the payload back.
pub proof fn lemma_response_decode_encode(code: ResponseCode, payload: Seq<u8>)
    requires
        payload.len() <= MAX_PAYLOAD_SIZE,
    ensures
        spec_encode_response(code, payload) is Some,
        spec_decode_response(spec_encode_response(code, payload)->0) == Some((code, payload)),
{
    lemma_frame(code.byte(), payload);
    lemma_response_code_round_trip(code, 0);
}

/// A frame that decodes to a response is the frame of that response.
pub proof fn lemma_response_encode_decode(f: Seq<u8>)
    requires
        spec_decode_response(f) is Some,
    ensures
        ({
            let (code, payload) = spec_decode_response(f)->0;
            spec_encode_response(code, payload) == Some(f)
        }),
{
    lemma_well_framed(f);
    lemma_response_code_round_trip(ResponseCode::Error, f[0]);
}

/// Builds the frame for the code byte `code`.
fn encode_frame(code: u8, payload: &[u8]) -> (r: Vec<u8>)
    requires
        payload.len() <= MAX_PAYLOAD_SIZE,
    ensures
        r@ == frame(code, payload@),
{
    let mut out: Vec<u8> = Vec::new();
    out.push(code);
    push_u16(&mut out, payload.len() as u16);
    push_bytes(&mut out, payload);
    assert(out@ =~= frame(code, payload@));
    out
}

/// Whether `f` has a complete header whose length field is the length of what
/// follows it.
fn is_well_framed(f: &[u8]) -> (r: bool)
    ensures
        r == well_framed(f@),
{
    f.len() >= HEADER_SIZE && read_u16(f, 1) as usize == f.len() - HEADER_SIZE
}

/// Frames a command: the code of the operation, the length of the payload and
/// the payload. A payload of more than `MAX_PAYLOAD_SIZE` bytes has no frame.
pub fn encode_command(command: Command, payload: &[u8]) -> (r: Result<Vec<u8>, HsmError>)
    ensures
        match r {
            Ok(f) => spec_encode_command(command, payload@) == Some(f@),
            Err(e) => e == HsmError::Protocol && spec_encode_command(command, payload@) is None,
        },
{
    if payload.len() > MAX_PAYLOAD_SIZE {
        return Err(HsmError::Protocol);
    }
    Ok(encode_frame(command.to_u8(), payload))
}

/// Takes the frame of a command apart. It is refused where it is shorter than
/// the header, where its length field is not the length of what follows, and
/// where its code byte is that of no operation.
pub fn decode_command(f: &[u8]) -> (r: Result<CommandMessage, HsmError>)
    ensures
        match r {
            Ok(m) => spec_decode_command(f@) == Some((m.command, m.payload@)),
            Err(e) => e == HsmError::Protocol && spec_decode_command(f@) is None,
        },
        f.len() < HEADER_SIZE ==> r is Err,
{
    if !is_well_framed(f) {
        return Err(HsmError::Protocol);
    }
    match Command::from_u8(f[0]) {
        Some(command) => Ok(
            CommandMessage { command, payload: copy_range(f, HEADER_SIZE, f.len()) },
        ),
        None => Err(HsmError::Protocol),
    }
}

/// Frames a response: its code, the length of the payload and the payload. A
/// payload of more than `MAX_PAYLOAD_SIZE` bytes has no frame.
pub fn encode_response(code: ResponseCode, payload: &[u8]) -> (r: Result<Vec<u8>, HsmError>)
    ensures
        match r {
            Ok(f) => spec_encode_response(code, payload@) == Some(f@),
            Err(e) => e == HsmError::Protocol && spec_encode_response(code, payload@) is None,
        },
{
    if payload.len() > MAX_PAYLOAD_SIZE {
        return Err(HsmError::Protocol);
    }
    Ok(encode_frame(code.to_u8(), payload))
}

/// Takes the frame of a response apart. It is refused where it is shorter
/// than the header, where its length field is not the length of what follows,
/// and where its code byte is no response code.
pub fn decode_response(f: &[u8]) -> (r: Result<ResponseMessage, HsmError>)
    ensures
        match r {
            Ok(m) => spec_decode_response(f@) == Some((m.code, m.payload@)),
            Err(e) => e == HsmError::Protocol && spec_decode_response(f@) is None,
        },
        f.len() < HEADER_SIZE ==> r is Err,
{
    if !is_well_framed(f) {
        return Err(HsmError::Protocol);
    }
    match ResponseCode::from_u8(f[0]) {
        Some(code) => Ok(ResponseMessage { code, payload: copy_range(f, HEADER_SIZE, f.len()) }),
        None => Err(HsmError::Protocol),
    }
}

} // verus!
