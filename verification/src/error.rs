//! The errors that the library reports.

use vstd::prelude::*;

verus! {

/// Failures that a transport adapter reports for a send or a receive.
#[derive(Clone, Copy, Debug, PartialEq, Eq, Structural)]
pub enum TransportErrorKind {
    /// The peer did not answer in time.
    Timeout,
    /// The connection was reset or lost.
    ConnectionReset,
    /// The address of the device is malformed.
    AddrInvalid,
}

/// Everything that can go wrong between the host and the device.
#[derive(Clone, Copy, Debug, PartialEq, Eq, Structural)]
pub enum HsmError {
    /// Wire data is malformed, too short or too long for its type.
    Deserialization,
    /// A frame has an unknown code, or its declared length is not the length
    /// of its payload.
    Protocol,
    /// The handshake cryptogram of the device does not match.
    Authentication,
    /// A frame of an established session failed verification.
    Integrity,
    /// The transport adapter failed.
    Transport(TransportErrorKind),
    /// The digest stored in the audit log entry with this number is not the
    /// digest of its fields and its predecessor.
    ChainVerification { item: u16 },
    /// The operation needs a session in another state.
    InvalidState,
    /// The message counter is used up: the session was closed and a new
    /// handshake is needed.
    CounterExhausted,
    /// The system's random source failed.
    RandomSource,
}

} // verus!
