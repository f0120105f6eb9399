//! The session: the one owner of a transport and of the keys and counter that
//! protect what goes over it.
//!
//! A session starts unauthenticated, is authenticating while the handshake is
//! under way, is established once the device has proved that it holds the
//! keys, and is closed after that: by the caller, by any failure, or when the
//! counter is used up. Nothing leaves the closed state.
//!
//! Each exchange has two halves. The first makes the frame to send, the
//! second judges what came back; between them the transport does its work. A
//! caller that drives the transport itself calls the halves; `authenticate`
//! and `send_command` call them around the session's own transport.

use vstd::prelude::*;
use crate::channel::{kdf, Credential, LABEL_ENCRYPTION_KEY, LABEL_MAC_KEY};
use crate::command::Command;
use crate::context::{
    command_frame, exchange_outcome, handshake_outcome, handshake_request, view_received,
    view_response, view_session_id, Handshake, SessionContext, SessionId, COUNTER_LIMIT,
    INITIAL_COUNTER, MAX_COMMAND_PAYLOAD_SIZE,
};
use crate::crypto::{random_challenge, CHALLENGE_SIZE, KEY_SIZE};
use crate::envelope::ResponseMessage;
use crate::error::HsmError;
use crate::padding::zeros;
use crate::response::ResponseCode;

verus! {

/// Where a session stands in its life.
#[derive(Clone, Copy, Debug, PartialEq, Eq, Structural)]
pub enum SessionState {
    /// No handshake was started.
    Unauthenticated,
    /// The host's cryptogram is on its way and the device's is awaited.
    Authenticating,
    /// Both sides hold the keys; commands can be sent.
    Established,
    /// The session is over.
    Closed,
}

/// What happens to a session.
#[derive(Clone, Copy, Debug, PartialEq, Eq, Structural)]
pub enum SessionEvent {
    /// The host sends its challenge and cryptogram.
    HandshakeStarted,
    /// The device's cryptogram was found to match.
    HandshakeVerified,
    /// A command is sent.
    CommandSent,
    /// A command was answered by a response that opened.
    ExchangeCompleted,
    /// Something failed: the transport, the handshake, the integrity of a
    /// frame, or the counter is used up.
    Failed,
    /// The caller closes the session.
    CloseRequested,
}

impl SessionState {
    /// The state after an event. An event that has no place in the state
    /// closes the session.
    pub open spec fn spec_next(self, event: SessionEvent) -> SessionState {
        match (self, event) {
            (SessionState::Unauthenticated, SessionEvent::HandshakeStarted) => {
                SessionState::Authenticating
            },
            (SessionState::Authenticating, SessionEvent::HandshakeVerified) => {
                SessionState::Established
            },
            (SessionState::Established, SessionEvent::CommandSent) => SessionState::Established,
            (SessionState::Established, SessionEvent::ExchangeCompleted) => {
                SessionState::Established
            },
            _ => SessionState::Closed,
        }
    }

    /// The state after an event.
    pub fn next(self, event: SessionEvent) -> (r: SessionState)
        ensures
            r == self.spec_next(event),
    {
        match (self, event) {
            (SessionState::Unauthenticated, SessionEvent::HandshakeStarted) => {
                SessionState::Authenticating
            },
            (SessionState::Authenticating, SessionEvent::HandshakeVerified) => {
                SessionState::Established
            },
            (SessionState::Established, SessionEvent::CommandSent) => SessionState::Established,
            (SessionState::Established, SessionEvent::ExchangeCompleted) => {
                SessionState::Established
            },
            _ => SessionState::Closed,
        }
    }
}

/// No event leaves the closed state; a failure or a request to close closes
/// from every state; no event leads back to the unauthenticated state; a
/// session is authenticating after an event only if it was unauthenticated
/// and the handshake started; and it is established after an event only if
/// it was authenticating and the handshake was verified, or was established
/// and a command was sent or answered.
pub proof fn lemma_transitions(state: SessionState, event: SessionEvent)
    ensures
        SessionState::Closed.spec_next(event) == SessionState::Closed,
        state.spec_next(SessionEvent::Failed) == SessionState::Closed,
        state.spec_next(SessionEvent::CloseRequested) == SessionState::Closed,
        state.spec_next(event) != SessionState::Unauthenticated,
        state.spec_next(event) == SessionState::Authenticating ==> state
            == SessionState::Unauthenticated && event == SessionEvent::HandshakeStarted,
        state.spec_next(event) == SessionState::Established ==> (state
            == SessionState::Authenticating && event == SessionEvent::HandshakeVerified) || (state
            == SessionState::Established && (event == SessionEvent::CommandSent || event
            == SessionEvent::ExchangeCompleted)),
{
}

/// The transport between the host and the device, which the session does not
/// trust: it carries frames and promises nothing of what comes back. It
/// reports its own failures as `HsmError::Transport`, and an answer that it
/// cannot make sense of as `HsmError::Protocol`; whatever it reports ends the
/// session.
pub trait Adapter {
    /// Sends a frame to the device.
    fn send(&mut self, frame: &[u8]) -> Result<(), HsmError>;

    /// Receives the device's next frame.
    fn receive(&mut self) -> Result<Vec<u8>, HsmError>;
}

/// What a session holds in each state.
enum Stage {
    /// Nothing yet.
    Unauthenticated,
    /// The handshake that awaits the device's answer.
    Authenticating(Handshake),
    /// The context, and the command that awaits its response, if one does.
    Established(SessionContext, Option<Command>),
    /// The counter value at which the session ended.
    Closed(u32),
}

/// A session with the device over a transport that it alone owns.
pub struct Session<A: Adapter> {
    adapter: Option<A>,
    stage: Stage,
}

/// What the second half of an exchange makes of what the transport handed
/// back, at a counter value: the response that it carries, or the error that
/// closes the session. At `COUNTER_LIMIT` no response is taken.
pub open spec fn command_outcome(
    id: u8,
    enc: Seq<u8>,
    mac: Seq<u8>,
    counter: u32,
    command: Command,
    received: Result<Seq<u8>, HsmError>,
) -> Result<(ResponseCode, Seq<u8>), HsmError> {
    if counter >= COUNTER_LIMIT {
        Err(HsmError::CounterExhausted)
    } else {
        exchange_outcome(id, enc, mac, counter, command, received)
    }
}

/// Whether `outcome` is what the second half of an exchange makes of some
/// answer of the transport.
pub open spec fn follows_some_answer(
    id: u8,
    enc: Seq<u8>,
    mac: Seq<u8>,
    counter: u32,
    command: Command,
    outcome: Result<(ResponseCode, Seq<u8>), HsmError>,
) -> bool {
    exists|received: Result<Seq<u8>, HsmError>|
        outcome == #[trigger] command_outcome(id, enc, mac, counter, command, received)
}

/// Whether `outcome` is what the second half of the handshake with the host
/// challenge `host_challenge` makes of some answer of the transport.
pub open spec fn follows_some_handshake(
    credential: &Credential,
    host_challenge: Seq<u8>,
    device_challenge: Seq<u8>,
    outcome: Result<u8, HsmError>,
) -> bool {
    exists|received: Result<Seq<u8>, HsmError>|
        outcome == #[trigger] handshake_outcome(
            kdf(
                credential.mac_key@,
                LABEL_MAC_KEY,
                host_challenge + device_challenge,
                KEY_SIZE as int,
            ),
            host_challenge,
            device_challenge,
            received,
        )
}

/// Whether `enc` and `mac` are the keys that the credential and the two
/// challenges give a session.
pub open spec fn keys_derived(
    credential: &Credential,
    host_challenge: Seq<u8>,
    device_challenge: Seq<u8>,
    enc: Seq<u8>,
    mac: Seq<u8>,
) -> bool {
    &&& enc == kdf(
        credential.enc_key@,
        LABEL_ENCRYPTION_KEY,
        host_challenge + device_challenge,
        KEY_SIZE as int,
    )
    &&& mac == kdf(
        credential.mac_key@,
        LABEL_MAC_KEY,
        host_challenge + device_challenge,
        KEY_SIZE as int,
    )
}

impl<A: Adapter> Session<A> {
    /// Where the session stands in its life.
    pub closed spec fn state(&self) -> SessionState {
        match self.stage {
            Stage::Unauthenticated => SessionState::Unauthenticated,
            Stage::Authenticating(_) => SessionState::Authenticating,
            Stage::Established(_, _) => SessionState::Established,
            Stage::Closed(_) => SessionState::Closed,
        }
    }

    /// The counter value of the session's next message; once the session is
    /// closed, the value at which it ended.
    pub closed spec fn counter(&self) -> u32 {
        match self.stage {
            Stage::Established(context, _) => context.counter(),
            Stage::Closed(counter) => counter,
            _ => INITIAL_COUNTER,
        }
    }

    /// The number that the device gave the session, once it is established.
    pub closed spec fn id(&self) -> u8 {
        match self.stage {
            Stage::Established(context, _) => context.id(),
            _ => 0,
        }
    }

    /// The session's encryption key: zero bytes before the handshake and
    /// after the session is closed.
    pub closed spec fn enc(&self) -> Seq<u8> {
        match self.stage {
            Stage::Authenticating(handshake) => handshake.enc(),
            Stage::Established(context, _) => context.enc(),
            _ => zeros(KEY_SIZE as int),
        }
    }

    /// The session's authentication key: zero bytes before the handshake and
    /// after the session is closed.
    pub closed spec fn mac(&self) -> Seq<u8> {
        match self.stage {
            Stage::Authenticating(handshake) => handshake.mac(),
            Stage::Established(context, _) => context.mac(),
            _ => zeros(KEY_SIZE as int),
        }
    }

    /// The host's challenge of the handshake that is under way.
    pub closed spec fn host_challenge(&self) -> Seq<u8> {
        match self.stage {
            Stage::Authenticating(handshake) => handshake.host_challenge(),
            _ => zeros(CHALLENGE_SIZE as int),
        }
    }

    /// The device's challenge of the handshake that is under way.
    pub closed spec fn device_challenge(&self) -> Seq<u8> {
        match self.stage {
            Stage::Authenticating(handshake) => handshake.device_challenge(),
            _ => zeros(CHALLENGE_SIZE as int),
        }
    }

    /// The command that was sent and awaits its response, if one does.
    pub closed spec fn pending(&self) -> Option<Command> {
        match self.stage {
            Stage::Established(_, pending) => pending,
            _ => None,
        }
    }

    /// Whether the session still owns its transport.
    pub closed spec fn holds_transport(&self) -> bool {
        self.adapter is Some
    }

    /// A closed session has let its transport go, holds no keys and awaits
    /// nothing.
    pub open spec fn is_closed(&self) -> bool {
        &&& self.state() == SessionState::Closed
        &&& !self.holds_transport()
        &&& self.enc() == zeros(KEY_SIZE as int)
        &&& self.mac() == zeros(KEY_SIZE as int)
        &&& self.pending() is None
    }

    /// Whether a command can be sent: the session is established, awaits no
    /// response, and its counter is not used up.
    pub open spec fn can_send(&self) -> bool {
        &&& self.state() == SessionState::Established
        &&& self.pending() is None
        &&& self.counter() < COUNTER_LIMIT
    }

    /// Everything but the command that is awaited, and the counter, is as it
    /// was in `before`.
    pub open spec fn same_session(&self, before: &Session<A>) -> bool {
        &&& self.state() == before.state()
        &&& self.id() == before.id()
        &&& self.enc() == before.enc()
        &&& self.mac() == before.mac()
        &&& self.holds_transport() == before.holds_transport()
    }

    /// A session over `adapter`, not yet authenticated.
    pub fn new(adapter: A) -> (r: Session<A>)
        ensures
            r.state() == SessionState::Unauthenticated,
            r.counter() == INITIAL_COUNTER,
            r.pending() is None,
            r.holds_transport(),
    {
        Session { adapter: Some(adapter), stage: Stage::Unauthenticated }
    }

    /// Where the session stands in its life.
    pub fn current_state(&self) -> (r: SessionState)
        ensures
            r == self.state(),
    {
        match &self.stage {
            Stage::Unauthenticated => SessionState::Unauthenticated,
            Stage::Authenticating(_) => SessionState::Authenticating,
            Stage::Established(_, _) => SessionState::Established,
            Stage::Closed(_) => SessionState::Closed,
        }
    }

    /// The counter value of the session's next message; once the session is
    /// closed, the value at which it ended.
    pub fn message_counter(&self) -> (r: u32)
        ensures
            r == self.counter(),
    {
        match &self.stage {
            Stage::Established(context, _) => context.message_counter(),
            Stage::Closed(counter) => *counter,
            _ => INITIAL_COUNTER,
        }
    }

    /// The number that the device gave the session, where the session is
    /// established.
    pub fn session_id(&self) -> (r: Option<SessionId>)
        ensures
            r is Some <==> self.state() == SessionState::Established,
            r matches Some(id) ==> id.value() == self.id(),
    {
        match &self.stage {
            Stage::Established(context, _) => Some(context.session_id()),
            _ => None,
        }
    }

    /// The command that was sent and awaits its response, if one does.
    pub fn pending_command(&self) -> (r: Option<Command>)
        ensures
            r == self.pending(),
    {
        match &self.stage {
            Stage::Established(_, pending) => *pending,
            _ => None,
        }
    }

    /// Takes what the session holds out of it and leaves it closed, at the
    /// counter value where it stood and without its transport.
    fn take_stage(&mut self) -> (r: Stage)
        ensures
            r == old(self).stage,
            final(self).is_closed(),
            final(self).counter() == old(self).counter(),
    {
        let mut stage = Stage::Closed(self.message_counter());
        core::mem::swap(&mut self.stage, &mut stage);
        self.adapter = None;
        stage
    }

    /// Ends the session: the keys are overwritten and the transport is let
    /// go.
    fn end(&mut self)
        ensures
            final(self).is_closed(),
            final(self).counter() == old(self).counter(),
    {
        match self.take_stage() {
            Stage::Authenticating(handshake) => {
                let mut handshake = handshake;
                handshake.wipe();
            },
            Stage::Established(context, _) => {
                let mut context = context;
                context.wipe();
            },
            _ => {},
        }
    }

    /// Hands a frame to the transport and takes what the transport gives
    /// back: the error of the send where the send fails, else what the
    /// receive gives. Nothing is known of that. A session that holds no
    /// transport has nothing to hand the frame to, which is an invalid state
    /// error. What the session holds stays as it is.
    fn exchange(&mut self, frame: &[u8]) -> (r: Result<Vec<u8>, HsmError>)
        ensures
            final(self).stage == old(self).stage,
            final(self).holds_transport() == old(self).holds_transport(),
            r is Ok ==> old(self).holds_transport(),
            !old(self).holds_transport() ==> r == Err::<Vec<u8>, HsmError>(HsmError::InvalidState),
    {
        match self.adapter.take() {
            Some(mut adapter) => {
                let r = match adapter.send(frame) {
                    Ok(()) => adapter.receive(),
                    Err(e) => Err(e),
                };
                self.adapter = Some(adapter);
                r
            },
            None => Err(HsmError::InvalidState),
        }
    }

    /// The first half of the handshake, with a host challenge that is given:
    /// derives the session's keys and makes the frame that carries the
    /// challenge and the host's cryptogram. A session that is not
    /// unauthenticated is closed instead.
    pub fn begin_authentication_with(
        &mut self,
        credential: &Credential,
        device_challenge: &[u8; CHALLENGE_SIZE],
        host_challenge: &[u8; CHALLENGE_SIZE],
    ) -> (r: Result<Vec<u8>, HsmError>)
        ensures
            match r {
                Ok(request) => old(self).state() == SessionState::Unauthenticated && request@
                    == handshake_request(final(self).mac(), host_challenge@, device_challenge@),
                Err(e) => e == HsmError::InvalidState && old(self).state()
                    != SessionState::Unauthenticated && final(self).is_closed(),
            },
            r is Ok ==> final(self).enc() == kdf(
                credential.enc_key@,
                LABEL_ENCRYPTION_KEY,
                host_challenge@ + device_challenge@,
                KEY_SIZE as int,
            ),
            r is Ok ==> final(self).mac() == kdf(
                credential.mac_key@,
                LABEL_MAC_KEY,
                host_challenge@ + device_challenge@,
                KEY_SIZE as int,
            ),
            r is Ok ==> final(self).host_challenge() == host_challenge@,
            r is Ok ==> final(self).device_challenge() == device_challenge@,
            r is Ok ==> final(self).holds_transport() == old(self).holds_transport(),
            final(self).counter() == old(self).counter(),
            final(self).state() == old(self).state().spec_next(SessionEvent::HandshakeStarted),
    {
        match &self.stage {
            Stage::Unauthenticated => {},
            _ => {
                self.end();
                return Err(HsmError::InvalidState);
            },
        }
        let (handshake, request) = Handshake::begin(credential, device_challenge, host_challenge);
        self.stage = Stage::Authenticating(handshake);
        Ok(request)
    }

    /// The first half of the handshake: draws a fresh host challenge from the
    /// system's random source and goes on as `begin_authentication_with`
    /// does. Where the random source fails, the session is closed.
    pub fn begin_authentication(
        &mut self,
        credential: &Credential,
        device_challenge: &[u8; CHALLENGE_SIZE],
    ) -> (r: Result<Vec<u8>, HsmError>)
        ensures
            match r {
                Ok(request) => old(self).state() == SessionState::Unauthenticated && request@
                    == handshake_request(
                    final(self).mac(),
                    final(self).host_challenge(),
                    device_challenge@,
                ),
                Err(e) => final(self).is_closed() && e == if old(self).state()
                    == SessionState::Unauthenticated {
                    HsmError::RandomSource
                } else {
                    HsmError::InvalidState
                },
            },
            r is Ok ==> final(self).enc() == kdf(
                credential.enc_key@,
                LABEL_ENCRYPTION_KEY,
                final(self).host_challenge() + device_challenge@,
                KEY_SIZE as int,
            ),
            r is Ok ==> final(self).mac() == kdf(
                credential.mac_key@,
                LABEL_MAC_KEY,
                final(self).host_challenge() + device_challenge@,
                KEY_SIZE as int,
            ),
            r is Ok ==> final(self).host_challenge().len() == CHALLENGE_SIZE,
            r is Ok ==> final(self).device_challenge() == device_challenge@,
            r is Ok ==> final(self).holds_transport() == old(self).holds_transport(),
            final(self).counter() == old(self).counter(),
            final(self).state() == old(self).state().spec_next(
                if r is Ok {
                    SessionEvent::HandshakeStarted
                } else {
                    SessionEvent::Failed
                },
            ),
    {
        match &self.stage {
            Stage::Unauthenticated => {},
            _ => {
                self.end();
                return Err(HsmError::InvalidState);
            },
        }
        match random_challenge() {
            Ok(host_challenge) => self.begin_authentication_with(
                credential,
                device_challenge,
                &host_challenge,
            ),
            Err(_) => {
                self.end();
                Err(HsmError::RandomSource)
            },
        }
    }

    /// The second half of the handshake: judges what the transport handed
    /// back. Where the device's answer carries the cryptogram that the
    /// session's keys give, the session is established under the number that
    /// the device gave it, at the first counter value. Every other answer
    /// closes the session, and so does a call outside a handshake.
    pub fn complete_authentication(&mut self, received: Result<Vec<u8>, HsmError>) -> (r: Result<
        SessionId,
        HsmError,
    >)
        ensures
            old(self).state() != SessionState::Authenticating ==> r == Err::<SessionId, HsmError>(
                HsmError::InvalidState,
            ),
            old(self).state() == SessionState::Authenticating ==> match handshake_outcome(
                old(self).mac(),
                old(self).host_challenge(),
                old(self).device_challenge(),
                view_received(received),
            ) {
                Ok(id) => r matches Ok(given) && given.value() == id && final(self).id() == id,
                Err(e) => r == Err::<SessionId, HsmError>(e),
            },
            r is Ok ==> final(self).state() == SessionState::Established && final(self).counter()
                == INITIAL_COUNTER && final(self).pending() is None,
            r is Ok ==> final(self).enc() == old(self).enc() && final(self).mac() == old(self).mac()
                && final(self).holds_transport() == old(self).holds_transport(),
            r is Err ==> final(self).is_closed() && final(self).counter() == old(self).counter(),
            final(self).state() == old(self).state().spec_next(
                if r is Ok {
                    SessionEvent::HandshakeVerified
                } else {
                    SessionEvent::Failed
                },
            ),
    {
        let adapter = self.adapter.take();
        match self.take_stage() {
            Stage::Authenticating(handshake) => {
                match handshake.complete(received) {
                    Ok((id, context)) => {
                        self.stage = Stage::Established(context, None);
                        self.adapter = adapter;
                        Ok(id)
                    },
                    Err(e) => Err(e),
                }
            },
            Stage::Established(context, _) => {
                let mut context = context;
                context.wipe();
                Err(HsmError::InvalidState)
            },
            _ => Err(HsmError::InvalidState),
        }
    }

    /// Authenticates the session with a host challenge that is given: the
    /// two halves of the handshake around the session's transport.
    pub fn authenticate_with(
        &mut self,
        credential: &Credential,
        device_challenge: &[u8; CHALLENGE_SIZE],
        host_challenge: &[u8; CHALLENGE_SIZE],
    ) -> (r: Result<SessionId, HsmError>)
        ensures
            r is Ok ==> old(self).state() == SessionState::Unauthenticated,
            r matches Ok(id) ==> final(self).id() == id.value(),
            r is Ok ==> final(self).state() == SessionState::Established && final(self).counter()
                == INITIAL_COUNTER && final(self).pending() is None,
            r is Ok ==> final(self).holds_transport() == old(self).holds_transport(),
            r is Ok ==> final(self).enc() == kdf(
                credential.enc_key@,
                LABEL_ENCRYPTION_KEY,
                host_challenge@ + device_challenge@,
                KEY_SIZE as int,
            ),
            r is Ok ==> final(self).mac() == kdf(
                credential.mac_key@,
                LABEL_MAC_KEY,
                host_challenge@ + device_challenge@,
                KEY_SIZE as int,
            ),
            r is Err ==> final(self).is_closed() && final(self).counter() == old(self).counter(),
            old(self).state() != SessionState::Unauthenticated ==> r == Err::<SessionId, HsmError>(
                HsmError::InvalidState,
            ),
            old(self).state() == SessionState::Unauthenticated ==> follows_some_handshake(
                credential,
                host_challenge@,
                device_challenge@,
                view_session_id(r),
            ),
    {
        let request = match self.begin_authentication_with(
            credential,
            device_challenge,
            host_challenge,
        ) {
            Ok(request) => request,
            Err(e) => {
                return Err(e);
            },
        };
        let received = self.exchange(request.as_slice());
        let ghost seen = view_received(received);
        let r = self.complete_authentication(received);
        assert(view_session_id(r) == handshake_outcome(
            kdf(
                credential.mac_key@,
                LABEL_MAC_KEY,
                host_challenge@ + device_challenge@,
                KEY_SIZE as int,
            ),
            host_challenge@,
            device_challenge@,
            seen,
        ));
        r
    }

    /// Authenticates the session: the two halves of the handshake, with a
    /// fresh host challenge, around the session's transport.
    pub fn authenticate(&mut self, credential: &Credential, device_challenge: &[u8; CHALLENGE_SIZE])
        -> (r: Result<SessionId, HsmError>)
        ensures
            r is Ok ==> old(self).state() == SessionState::Unauthenticated,
            r matches Ok(id) ==> final(self).id() == id.value(),
            r is Ok ==> final(self).state() == SessionState::Established && final(self).counter()
                == INITIAL_COUNTER && final(self).pending() is None,
            r is Ok ==> final(self).holds_transport() == old(self).holds_transport(),
            r is Err ==> final(self).is_closed() && final(self).counter() == old(self).counter(),
            old(self).state() != SessionState::Unauthenticated ==> r == Err::<SessionId, HsmError>(
                HsmError::InvalidState,
            ),
            old(self).state() == SessionState::Unauthenticated ==> r == Err::<SessionId, HsmError>(
                HsmError::RandomSource,
            ) || exists|host_challenge: Seq<u8>| #[trigger]
                follows_some_handshake(
                    credential,
                    host_challenge,
                    device_challenge@,
                    view_session_id(r),
                ),
            r is Ok ==> exists|host_challenge: Seq<u8>|
                host_challenge.len() == CHALLENGE_SIZE && #[trigger] follows_some_handshake(
                    credential,
                    host_challenge,
                    device_challenge@,
                    view_session_id(r),
                ) && keys_derived(
                    credential,
                    host_challenge,
                    device_challenge@,
                    final(self).enc(),
                    final(self).mac(),
                ),
    {
        let request = match self.begin_authentication(credential, device_challenge) {
            Ok(request) => request,
            Err(e) => {
                return Err(e);
            },
        };
        let ghost host_challenge = self.host_challenge();
        let received = self.exchange(request.as_slice());
        let ghost seen = view_received(received);
        let r = self.complete_authentication(received);
        assert(view_session_id(r) == handshake_outcome(
            kdf(
                credential.mac_key@,
                LABEL_MAC_KEY,
                host_challenge + device_challenge@,
                KEY_SIZE as int,
            ),
            host_challenge,
            device_challenge@,
            seen,
        ));
        assert(follows_some_handshake(
            credential,
            host_challenge,
            device_challenge@,
            view_session_id(r),
        ));
        assert(r is Ok ==> keys_derived(
            credential,
            host_challenge,
            device_challenge@,
            self.enc(),
            self.mac(),
        ));
        r
    }

    /// The first half of an exchange: makes the frame that carries the
    /// command at the session's counter value, and notes that its response is
    /// awaited. A session that cannot send is closed instead: with an
    /// invalid state error where it is not established or still awaits a
    /// response, with a counter error where its counter is used up, and with
    /// a protocol error where the payload is too long.
    pub fn begin_command(&mut self, command: Command, payload: &[u8]) -> (r: Result<
        Vec<u8>,
        HsmError,
    >)
        ensures
            match r {
                Ok(request) => old(self).can_send() && command_frame(
                    old(self).id(),
                    old(self).enc(),
                    old(self).mac(),
                    old(self).counter(),
                    command,
                    payload@,
                ) == Some(request@) && final(self).pending() == Some(command),
                Err(e) => final(self).is_closed() && e == if old(self).state()
                    != SessionState::Established || old(self).pending() is Some {
                    HsmError::InvalidState
                } else if old(self).counter() >= COUNTER_LIMIT {
                    HsmError::CounterExhausted
                } else {
                    HsmError::Protocol
                },
            },
            r is Ok <==> old(self).can_send() && payload.len() <= MAX_COMMAND_PAYLOAD_SIZE,
            r is Ok ==> final(self).same_session(old(self)),
            final(self).counter() == old(self).counter(),
            final(self).state() == old(self).state().spec_next(
                if r is Ok {
                    SessionEvent::CommandSent
                } else {
                    SessionEvent::Failed
                },
            ),
    {
        let adapter = self.adapter.take();
        match self.take_stage() {
            Stage::Established(context, None) => {
                let mut context = context;
                if context.is_exhausted() {
                    context.wipe();
                    return Err(HsmError::CounterExhausted);
                }
                match context.seal_command(command, payload) {
                    Ok(request) => {
                        self.stage = Stage::Established(context, Some(command));
                        self.adapter = adapter;
                        Ok(request)
                    },
                    Err(e) => {
                        context.wipe();
                        Err(e)
                    },
                }
            },
            Stage::Established(context, Some(_)) => {
                let mut context = context;
                context.wipe();
                Err(HsmError::InvalidState)
            },
            Stage::Authenticating(handshake) => {
                let mut handshake = handshake;
                handshake.wipe();
                Err(HsmError::InvalidState)
            },
            _ => Err(HsmError::InvalidState),
        }
    }

    /// The second half of an exchange: judges what the transport handed back
    /// for the command that is awaited. A response that opens at the
    /// session's counter value and answers the command is returned, and the
    /// counter moves on by one. Everything else closes the session and
    /// leaves the counter where it was: the transport's error, a frame that
    /// does not open, a response to another command, and a call while no
    /// response is awaited.
    pub fn complete_command(&mut self, received: Result<Vec<u8>, HsmError>) -> (r: Result<
        ResponseMessage,
        HsmError,
    >)
        ensures
            old(self).state() != SessionState::Established || old(self).pending() is None ==> r
                == Err::<ResponseMessage, HsmError>(HsmError::InvalidState),
            old(self).state() == SessionState::Established && old(self).pending() is Some
                ==> match command_outcome(
                old(self).id(),
                old(self).enc(),
                old(self).mac(),
                old(self).counter(),
                old(self).pending()->0,
                view_received(received),
            ) {
                Ok((code, payload)) => r matches Ok(m) && m.code == code && m.payload@ == payload,
                Err(e) => r == Err::<ResponseMessage, HsmError>(e),
            },
            r is Ok ==> final(self).counter() == old(self).counter() + 1 && final(self).pending()
                is None && final(self).same_session(old(self)),
            r is Err ==> final(self).is_closed() && final(self).counter() == old(self).counter(),
            final(self).state() == old(self).state().spec_next(
                if r is Ok {
                    SessionEvent::ExchangeCompleted
                } else {
                    SessionEvent::Failed
                },
            ),
    {
        let adapter = self.adapter.take();
        match self.take_stage() {
            Stage::Established(context, Some(command)) => {
                let mut context = context;
                if context.is_exhausted() {
                    context.wipe();
                    return Err(HsmError::CounterExhausted);
                }
                match context.complete_exchange(command, received) {
                    Ok(response) => {
                        let advanced = context.advance();
                        assert(advanced is Ok);
                        self.stage = Stage::Established(context, None);
                        self.adapter = adapter;
                        Ok(response)
                    },
                    Err(e) => {
                        context.wipe();
                        Err(e)
                    },
                }
            },
            Stage::Established(context, None) => {
                let mut context = context;
                context.wipe();
                Err(HsmError::InvalidState)
            },
            Stage::Authenticating(handshake) => {
                let mut handshake = handshake;
                handshake.wipe();
                Err(HsmError::InvalidState)
            },
            _ => Err(HsmError::InvalidState),
        }
    }

    /// Sends a command and returns the response to it: the two halves of an
    /// exchange around the session's transport. On success the counter has
    /// moved on by one. On any failure the session is closed and the counter
    /// is where it was.
    pub fn send_command(&mut self, command: Command, payload: &[u8]) -> (r: Result<
        ResponseMessage,
        HsmError,
    >)
        ensures
            r is Ok ==> old(self).can_send() && payload.len() <= MAX_COMMAND_PAYLOAD_SIZE,
            r is Ok ==> final(self).counter() == old(self).counter() + 1 && final(self).pending()
                is None && final(self).same_session(old(self)),
            r matches Ok(m) ==> m.code.spec_answers(command),
            r is Err ==> final(self).is_closed() && final(self).counter() == old(self).counter(),
            old(self).state() != SessionState::Established || old(self).pending() is Some ==> r
                == Err::<ResponseMessage, HsmError>(HsmError::InvalidState),
            old(self).state() == SessionState::Established && old(self).pending() is None
                && old(self).counter() >= COUNTER_LIMIT ==> r == Err::<ResponseMessage, HsmError>(
                HsmError::CounterExhausted,
            ),
            old(self).can_send() && payload.len() > MAX_COMMAND_PAYLOAD_SIZE ==> r == Err::<
                ResponseMessage,
                HsmError,
            >(HsmError::Protocol),
            old(self).can_send() && payload.len() <= MAX_COMMAND_PAYLOAD_SIZE
                ==> follows_some_answer(
                old(self).id(),
                old(self).enc(),
                old(self).mac(),
                old(self).counter(),
                command,
                view_response(r),
            ),
    {
        let request = match self.begin_command(command, payload) {
            Ok(request) => request,
            Err(e) => {
                return Err(e);
            },
        };
        let received = self.exchange(request.as_slice());
        let ghost seen = view_received(received);
        let r = self.complete_command(received);
        assert(view_response(r) == command_outcome(
            old(self).id(),
            old(self).enc(),
            old(self).mac(),
            old(self).counter(),
            command,
            seen,
        ));
        r
    }

    /// Closes the session and lets the transport go. Closing a closed session
    /// changes nothing.
    pub fn close(&mut self)
        ensures
            final(self).is_closed(),
            final(self).counter() == old(self).counter(),
            final(self).state() == old(self).state().spec_next(SessionEvent::CloseRequested),
    {
        self.end();
    }
}

} // verus!
