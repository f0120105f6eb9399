//! The code byte of a response.

use vstd::prelude::*;
use crate::command::{lemma_command_round_trip, Command};

verus! {

/// The offset between the code byte of an operation and the code byte of the
/// response that reports its success.
pub const RESPONSE_MARKER: u8 = 0x80;

/// What a response, or the result field of an audit log entry, says of an
/// operation.
#[derive(Clone, Copy, Debug, PartialEq, Eq, Structural)]
pub enum ResponseCode {
    /// No result is known (`0x00`): the device logs its own start this way.
    Unknown,
    /// The device refused or failed the operation (`0x7f`); the payload holds
    /// the device's reason.
    Error,
    /// The operation succeeded: its code byte plus the response marker.
    Success(Command),
    /// The field was never written (`0xff`): the first line of a fresh log.
    Absent,
}

impl ResponseCode {
    /// The byte that stands for the value on the wire.
    pub open spec fn byte(self) -> u8 {
        match self {
            ResponseCode::Unknown => 0x00,
            ResponseCode::Error => 0x7f,
            ResponseCode::Success(c) => (c.byte() + RESPONSE_MARKER) as u8,
            ResponseCode::Absent => 0xff,
        }
    }

    /// The value that the byte `b` stands for, if there is one.
    pub open spec fn of_byte(b: u8) -> Option<ResponseCode> {
        if b == 0x00 {
            Some(ResponseCode::Unknown)
        } else if b == 0x7f {
            Some(ResponseCode::Error)
        } else if b == 0xff {
            Some(ResponseCode::Absent)
        } else if b > RESPONSE_MARKER {
            match Command::of_byte((b - RESPONSE_MARKER) as u8) {
                Some(c) => Some(ResponseCode::Success(c)),
                None => None,
            }
        } else {
            None
        }
    }

    /// The byte that stands for the value on the wire.
    pub fn to_u8(self) -> (b: u8)
        ensures
            b == self.byte(),
    {
        match self {
            ResponseCode::Unknown => 0x00,
            ResponseCode::Error => 0x7f,
            ResponseCode::Success(c) => c.to_u8() + RESPONSE_MARKER,
            ResponseCode::Absent => 0xff,
        }
    }

    /// Decodes a response code. A byte that stands for nothing is rejected.
    pub fn from_u8(b: u8) -> (r: Option<ResponseCode>)
        ensures
            r == ResponseCode::of_byte(b),
    {
        if b == 0x00 {
            Some(ResponseCode::Unknown)
        } else if b == 0x7f {
            Some(ResponseCode::Error)
        } else if b == 0xff {
            Some(ResponseCode::Absent)
        } else if b > RESPONSE_MARKER {
            match Command::from_u8(b - RESPONSE_MARKER) {
                Some(c) => Some(ResponseCode::Success(c)),
                None => None,
            }
        } else {
            None
        }
    }

    /// Whether this is the code that answers the operation `command`: its
    /// success, or the device's error.
    pub open spec fn spec_answers(self, command: Command) -> bool {
        self == ResponseCode::Success(command) || self == ResponseCode::Error
    }

    /// Whether this is the code that answers the operation `command`: its
    /// success, or the device's error.
    pub fn answers(self, command: Command) -> (r: bool)
        ensures
            r == self.spec_answers(command),
    {
        match self {
            ResponseCode::Success(c) => c == command,
            ResponseCode::Error => true,
            _ => false,
        }
    }
}

/// Decoding the byte of a response code gives the code back, and a byte
/// decodes to a code only if it is that code's byte.
pub proof fn lemma_response_code_round_trip(c: ResponseCode, b: u8)
    ensures
        ResponseCode::of_byte(c.byte()) == Some(c),
        ResponseCode::of_byte(b) matches Some(d) ==> d.byte() == b,
{
    if let ResponseCode::Success(op) = c {
        lemma_command_round_trip(op, b);
    }
    if b > RESPONSE_MARKER {
        if let Some(op) = Command::of_byte((b - RESPONSE_MARKER) as u8) {
            lemma_command_round_trip(op, (b - RESPONSE_MARKER) as u8);
        }
    }
}

} // verus!
