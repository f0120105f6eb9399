//! Reset of the device: it clears all stored objects, restores the default
//! authentication key and restarts.
//!
//! A device that restarts does not answer on the session that asked for it.
//! What the transport then hands back is no frame of a response, which the
//! session reports as a protocol error like for any other command. Only here
//! is that error taken for what it is, the expected outcome of a reset. A
//! caller that drives the transport itself hands the outcome of the second
//! half of the exchange to `reset_outcome`.

use vstd::prelude::*;
use crate::command::Command;
use crate::context::{exchange_outcome, view_response, COUNTER_LIMIT};
use crate::envelope::ResponseMessage;
use crate::error::HsmError;
use crate::response::ResponseCode;
use crate::session::{follows_some_answer, Adapter, Session, SessionState};

verus! {

/// Size of the response to a reset on the wire.
pub const RESET_RESPONSE_SIZE: usize = 1;

/// Response to a reset, from a device that answers before it restarts.
#[derive(Clone, Copy, Debug, PartialEq, Eq)]
pub struct ResetResponse(pub(crate) u8);

impl View for ResetResponse {
    type V = u8;

    closed spec fn view(&self) -> u8 {
        self.0
    }
}

impl ResetResponse {
    /// The response that `b` stands for: `b` is exactly one byte.
    pub open spec fn spec_decode(b: Seq<u8>) -> Option<u8> {
        if b.len() == RESET_RESPONSE_SIZE {
            Some(b[0])
        } else {
            None
        }
    }

    /// Decodes the response from exactly one byte.
    pub fn decode(bytes: &[u8]) -> (r: Result<ResetResponse, HsmError>)
        ensures
            match r {
                Ok(v) => ResetResponse::spec_decode(bytes@) == Some(v@),
                Err(e) => e == HsmError::Deserialization && ResetResponse::spec_decode(bytes@)
                    is None,
            },
            bytes.len() < RESET_RESPONSE_SIZE ==> r is Err,
    {
        if bytes.len() == RESET_RESPONSE_SIZE {
            Ok(ResetResponse(bytes[0]))
        } else {
            Err(HsmError::Deserialization)
        }
    }

    /// The one byte of the response.
    pub fn encode(&self) -> (r: Vec<u8>)
        ensures
            r@ == seq![self@],
            ResetResponse::spec_decode(r@) == Some(self@),
    {
        let mut out: Vec<u8> = Vec::new();
        out.push(self.0);
        assert(out@ =~= seq![self@]);
        out
    }

    /// The byte that the device answered with.
    pub fn value(&self) -> (r: u8)
        ensures
            r == self@,
    {
        self.0
    }
}

/// What a reset makes of the outcome of its command: a response is a success,
/// a protocol error is the success that was expected, and every other error
/// stands. A response is a success whatever its code: one that carries the
/// device's error code came from a device that is still there and in step
/// with the session, and says so in the response itself, which the second
/// half of the exchange hands to the caller that asks for it. The outcome of
/// a reset says how the exchange ended, not what the device did.
pub open spec fn spec_reset_outcome(sent: Result<(ResponseCode, Seq<u8>), HsmError>) -> Result<
    (),
    HsmError,
> {
    match sent {
        Ok(_) => Ok(()),
        Err(HsmError::Protocol) => Ok(()),
        Err(e) => Err(e),
    }
}

/// Where the transport fails to deliver the answer to a reset, the reset
/// succeeds if the transport reports a protocol error, and fails with the
/// transport's error if it reports any other.
pub proof fn lemma_reset_after_transport_error(
    id: u8,
    enc: Seq<u8>,
    mac: Seq<u8>,
    counter: u32,
    e: HsmError,
)
    ensures
        spec_reset_outcome(
            exchange_outcome(id, enc, mac, counter, Command::ResetDevice, Err(e)),
        ) == if e == HsmError::Protocol {
            Ok::<(), HsmError>(())
        } else {
            Err::<(), HsmError>(e)
        },
{
}

/// Turns the outcome of the reset command into the outcome of the reset: the
/// one place where a protocol error is taken for a success.
pub fn reset_outcome(sent: Result<ResponseMessage, HsmError>) -> (r: Result<(), HsmError>)
    ensures
        r == spec_reset_outcome(view_response(sent)),
{
    match sent {
        Ok(_) => Ok(()),
        Err(HsmError::Protocol) => Ok(()),
        Err(e) => Err(e),
    }
}

/// Resets the device to its factory state and restarts it. The session is
/// used up: the device forgets it. A session that cannot send is refused as
/// `send_command` refuses it: with an invalid state error where it is not
/// established or awaits a response, and with a counter error where its
/// counter is used up. Otherwise the outcome is what `reset_outcome` makes of
/// the outcome of the reset command, which is what the session makes of what
/// its transport hands back.
pub fn reset<A: Adapter>(session: Session<A>) -> (r: Result<(), HsmError>)
    ensures
        r matches Err(e) ==> e != HsmError::Protocol,
        session.state() != SessionState::Established || session.pending() is Some ==> r == Err::<
            (),
            HsmError,
        >(HsmError::InvalidState),
        session.state() == SessionState::Established && session.pending() is None
            && session.counter() >= COUNTER_LIMIT ==> r == Err::<(), HsmError>(
            HsmError::CounterExhausted,
        ),
        session.can_send() ==> exists|sent: Result<(ResponseCode, Seq<u8>), HsmError>|
            r == spec_reset_outcome(sent) && #[trigger] follows_some_answer(
                session.id(),
                session.enc(),
                session.mac(),
                session.counter(),
                Command::ResetDevice,
                sent,
            ),
{
    let mut session = session;
    let sent = session.send_command(Command::ResetDevice, &[]);
    session.close();
    reset_outcome(sent)
}

} // verus!
