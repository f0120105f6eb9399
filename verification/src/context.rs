//! The cryptographic context of a session: its number, its keys and its
//! message counter, and the frames that they make and open.

use vstd::prelude::*;
use crate::channel::{
    encrypt_and_mac, kdf, lemma_sealed_parts, opened, sealed, verify_and_decrypt, Credential,
    SessionKeys, CRYPTOGRAM_SIZE, LABEL_DEVICE_CRYPTOGRAM, LABEL_ENCRYPTION_KEY,
    LABEL_HOST_CRYPTOGRAM, LABEL_MAC_KEY, MAX_MESSAGE_SIZE,
};
use crate::command::Command;
use crate::crypto::{CHALLENGE_SIZE, KEY_SIZE};
use crate::envelope::{
    decode_response, encode_command, frame, lemma_frame, lemma_response_decode_encode,
    spec_decode_response, ResponseMessage,
};
use crate::error::HsmError;
use crate::padding::{lemma_unpad_pad, zeros};
use crate::response::ResponseCode;
use crate::wire::{bytes_equal, copy_range, push_bytes};

verus! {

/// The number of sessions that the device keeps at a time.
pub const MAX_SESSIONS: u8 = 16;

/// The counter value of the first message of a session.
pub const INITIAL_COUNTER: u32 = 1;

/// The counter value at which a session sends no more: the next value would
/// not fit the counter.
pub const COUNTER_LIMIT: u32 = 0xffff_ffff;

/// The longest payload of a command of a session: framed, it is a message of
/// at most `MAX_MESSAGE_SIZE` bytes.
pub const MAX_COMMAND_PAYLOAD_SIZE: usize = 65516;

/// Size of the payload of the device's answer to the handshake: the number of
/// the session and the device's cryptogram.
pub const HANDSHAKE_ANSWER_SIZE: usize = 9;

/// The number that the device gives a session: less than `MAX_SESSIONS`.
#[derive(Clone, Copy, Debug, PartialEq, Eq)]
pub struct SessionId(u8);

impl SessionId {
    #[verifier::type_invariant]
    closed spec fn wf(self) -> bool {
        self.0 < MAX_SESSIONS
    }

    /// The number as an integer.
    pub closed spec fn value(self) -> u8 {
        self.0
    }

    /// The session with the number `id`, which must be less than
    /// `MAX_SESSIONS`.
    pub fn new(id: u8) -> (r: Result<SessionId, HsmError>)
        ensures
            match r {
                Ok(s) => id < MAX_SESSIONS && s.value() == id,
                Err(e) => e == HsmError::Protocol && id >= MAX_SESSIONS,
            },
    {
        if id < MAX_SESSIONS {
            Ok(SessionId(id))
        } else {
            Err(HsmError::Protocol)
        }
    }

    /// The number as an integer.
    pub fn to_u8(self) -> (r: u8)
        ensures
            r == self.value(),
            r < MAX_SESSIONS,
    {
        proof {
            use_type_invariant(self);
        }
        self.0
    }
}

/// What an established session holds: the number that the device gave it,
/// its keys and the counter value of its next message.
pub struct SessionContext {
    id: SessionId,
    keys: SessionKeys,
    counter: u32,
}

/// A handshake that is under way: the keys that the session is to have, and
/// the two challenges that they were derived from.
pub struct Handshake {
    keys: SessionKeys,
    host_challenge: [u8; CHALLENGE_SIZE],
    device_challenge: [u8; CHALLENGE_SIZE],
}

/// The frame that asks the device to authenticate a session: the host's
/// challenge and the host's cryptogram under the code of the handshake.
pub open spec fn handshake_request(
    mac: Seq<u8>,
    host_challenge: Seq<u8>,
    device_challenge: Seq<u8>,
) -> Seq<u8> {
    frame(
        Command::AuthenticateSession.byte(),
        host_challenge + kdf(
            mac,
            LABEL_HOST_CRYPTOGRAM,
            host_challenge + device_challenge,
            CRYPTOGRAM_SIZE as int,
        ),
    )
}

/// What the device's answer to the handshake establishes: the number of the
/// session, or the error that ends the handshake. An answer that the
/// transport failed to deliver ends it with the transport's error; one that
/// is no frame of a response, or whose payload is not nine bytes, or that
/// names a session that the device cannot have, with a protocol error; one
/// that does not report the success of the handshake, or whose cryptogram is
/// not the one that the session's keys give, with an authentication error.
pub open spec fn handshake_outcome(
    mac: Seq<u8>,
    host_challenge: Seq<u8>,
    device_challenge: Seq<u8>,
    received: Result<Seq<u8>, HsmError>,
) -> Result<u8, HsmError> {
    match received {
        Err(e) => Err(e),
        Ok(answer) => match spec_decode_response(answer) {
            None => Err(HsmError::Protocol),
            Some((code, payload)) => if code != ResponseCode::Success(
                Command::AuthenticateSession,
            ) {
                Err(HsmError::Authentication)
            } else if payload.len() != HANDSHAKE_ANSWER_SIZE || payload[0] >= MAX_SESSIONS {
                Err(HsmError::Protocol)
            } else if payload.subrange(1, HANDSHAKE_ANSWER_SIZE as int) != kdf(
                mac,
                LABEL_DEVICE_CRYPTOGRAM,
                host_challenge + device_challenge,
                CRYPTOGRAM_SIZE as int,
            ) {
                Err(HsmError::Authentication)
            } else {
                Ok(payload[0])
            },
        },
    }
}

/// The frame that carries a command of a session: the command's own frame,
/// protected at the counter value, after the session's number, under the code
/// of a session message. A payload of more than `MAX_COMMAND_PAYLOAD_SIZE`
/// bytes has none.
pub open spec fn command_frame(
    id: u8,
    enc: Seq<u8>,
    mac: Seq<u8>,
    counter: u32,
    command: Command,
    payload: Seq<u8>,
) -> Option<Seq<u8>> {
    if payload.len() <= MAX_COMMAND_PAYLOAD_SIZE {
        Some(
            frame(
                Command::SessionMessage.byte(),
                seq![id] + sealed(enc, mac, counter, frame(command.byte(), payload)),
            ),
        )
    } else {
        None
    }
}

/// What a received frame answers to a command of a session: the response's
/// code and payload, or the error that ends the session. A frame that is no
/// frame of a response is a protocol error, and so is one that opens to
/// something that is no frame of a response. A frame that is no session
/// message, is for another session, does not open at the counter value, or
/// opens to a response that answers another command, is an integrity error.
pub open spec fn response_outcome(
    id: u8,
    enc: Seq<u8>,
    mac: Seq<u8>,
    counter: u32,
    command: Command,
    received: Seq<u8>,
) -> Result<(ResponseCode, Seq<u8>), HsmError> {
    match spec_decode_response(received) {
        None => Err(HsmError::Protocol),
        Some((outer, wrapped)) => if outer != ResponseCode::Success(Command::SessionMessage)
            || wrapped.len() < 1 || wrapped[0] != id {
            Err(HsmError::Integrity)
        } else {
            match opened(enc, mac, counter, wrapped.subrange(1, wrapped.len() as int)) {
                None => Err(HsmError::Integrity),
                Some(inner) => match spec_decode_response(inner) {
                    None => Err(HsmError::Protocol),
                    Some((code, payload)) => if code.spec_answers(command) {
                        Ok((code, payload))
                    } else {
                        Err(HsmError::Integrity)
                    },
                },
            }
        },
    }
}

/// The frame by which the device answers a command of a session: the
/// response's own frame, protected at the counter value, after the session's
/// number, under the code that reports the success of a session message.
pub open spec fn response_frame(
    id: u8,
    enc: Seq<u8>,
    mac: Seq<u8>,
    counter: u32,
    code: ResponseCode,
    payload: Seq<u8>,
) -> Seq<u8> {
    frame(
        ResponseCode::Success(Command::SessionMessage).byte(),
        seq![id] + sealed(enc, mac, counter, frame(code.byte(), payload)),
    )
}

/// What is known of a frame that is the device's answer with the code `code`
/// and the payload `payload`: it is the frame of a session message whose
/// payload is the session's number and the protected frame of the response,
/// and the frame of the response decodes to the code and the payload.
pub open spec fn honest_response(
    id: u8,
    enc: Seq<u8>,
    mac: Seq<u8>,
    counter: u32,
    code: ResponseCode,
    payload: Seq<u8>,
    received: Seq<u8>,
) -> bool {
    let inner = frame(code.byte(), payload);
    let wrapped = seq![id] + sealed(enc, mac, counter, inner);
    &&& spec_decode_response(received) == Some(
        (ResponseCode::Success(Command::SessionMessage), wrapped),
    )
    &&& wrapped.len() >= 1
    &&& wrapped[0] == id
    &&& wrapped.subrange(1, wrapped.len() as int) == sealed(enc, mac, counter, inner)
    &&& spec_decode_response(inner) == Some((code, payload))
}

/// The device's answer to a command is what `honest_response` says of it.
pub proof fn lemma_honest_response(
    id: u8,
    enc: Seq<u8>,
    mac: Seq<u8>,
    counter: u32,
    code: ResponseCode,
    payload: Seq<u8>,
)
    requires
        payload.len() <= MAX_COMMAND_PAYLOAD_SIZE,
    ensures
        honest_response(
            id,
            enc,
            mac,
            counter,
            code,
            payload,
            response_frame(id, enc, mac, counter, code, payload),
        ),
{
    let inner = frame(code.byte(), payload);
    let protected = sealed(enc, mac, counter, inner);
    let wrapped = seq![id] + protected;
    lemma_frame(code.byte(), payload);
    lemma_response_decode_encode(code, payload);
    lemma_sealed_parts(enc, mac, counter, inner);
    lemma_unpad_pad(inner);
    lemma_response_decode_encode(ResponseCode::Success(Command::SessionMessage), wrapped);
    assert(wrapped.subrange(1, wrapped.len() as int) =~= protected);
}

/// What the transport's answer means for a command of a session: the
/// transport's own error, or what the received frame answers.
pub open spec fn exchange_outcome(
    id: u8,
    enc: Seq<u8>,
    mac: Seq<u8>,
    counter: u32,
    command: Command,
    received: Result<Seq<u8>, HsmError>,
) -> Result<(ResponseCode, Seq<u8>), HsmError> {
    match received {
        Err(e) => Err(e),
        Ok(answer) => response_outcome(id, enc, mac, counter, command, answer),
    }
}

/// The view of the outcome of a command.
pub open spec fn view_response(sent: Result<ResponseMessage, HsmError>) -> Result<
    (ResponseCode, Seq<u8>),
    HsmError,
> {
    match sent {
        Ok(m) => Ok((m.code, m.payload@)),
        Err(e) => Err(e),
    }
}

/// The view of the outcome of a handshake.
pub open spec fn view_session_id(given: Result<SessionId, HsmError>) -> Result<u8, HsmError> {
    match given {
        Ok(id) => Ok(id.value()),
        Err(e) => Err(e),
    }
}

/// The view of what the transport handed back.
pub open spec fn view_received(received: Result<Vec<u8>, HsmError>) -> Result<Seq<u8>, HsmError> {
    match received {
        Ok(answer) => Ok(answer@),
        Err(e) => Err(e),
    }
}

/// The frame that asks the device to authenticate a session.
pub fn handshake_frame(
    keys: &SessionKeys,
    host_challenge: &[u8; CHALLENGE_SIZE],
    device_challenge: &[u8; CHALLENGE_SIZE],
) -> (r: Vec<u8>)
    ensures
        r@ == handshake_request(keys.mac(), host_challenge@, device_challenge@),
{
    let cryptogram = keys.host_cryptogram(host_challenge, device_challenge);
    let mut payload: Vec<u8> = Vec::new();
    push_bytes(&mut payload, host_challenge.as_slice());
    push_bytes(&mut payload, cryptogram.as_slice());
    encode_command(Command::AuthenticateSession, payload.as_slice()).unwrap()
}

impl Handshake {
    /// The encryption key that the session is to have.
    pub closed spec fn enc(&self) -> Seq<u8> {
        self.keys.enc()
    }

    /// The authentication key that the session is to have.
    pub closed spec fn mac(&self) -> Seq<u8> {
        self.keys.mac()
    }

    /// The challenge that the host sent.
    pub closed spec fn host_challenge(&self) -> Seq<u8> {
        self.host_challenge@
    }

    /// The challenge that the device had sent.
    pub closed spec fn device_challenge(&self) -> Seq<u8> {
        self.device_challenge@
    }

    /// Starts a handshake: derives the keys that the session is to have from
    /// the credential and the two challenges, and makes the frame that
    /// carries the host's challenge and cryptogram to the device.
    pub fn begin(
        credential: &Credential,
        device_challenge: &[u8; CHALLENGE_SIZE],
        host_challenge: &[u8; CHALLENGE_SIZE],
    ) -> (r: (Handshake, Vec<u8>))
        ensures
            r.0.enc() == kdf(
                credential.enc_key@,
                LABEL_ENCRYPTION_KEY,
                host_challenge@ + device_challenge@,
                KEY_SIZE as int,
            ),
            r.0.mac() == kdf(
                credential.mac_key@,
                LABEL_MAC_KEY,
                host_challenge@ + device_challenge@,
                KEY_SIZE as int,
            ),
            r.0.host_challenge() == host_challenge@,
            r.0.device_challenge() == device_challenge@,
            r.1@ == handshake_request(r.0.mac(), host_challenge@, device_challenge@),
    {
        let keys = SessionKeys::derive_keys(credential, host_challenge, device_challenge);
        let request = handshake_frame(&keys, host_challenge, device_challenge);
        (
            Handshake {
                keys,
                host_challenge: *host_challenge,
                device_challenge: *device_challenge,
            },
            request,
        )
    }

    /// Ends the handshake with what the transport handed back: the session's
    /// number and context where the device's answer proves that it holds the
    /// keys, and the error otherwise.
    pub fn complete(self, received: Result<Vec<u8>, HsmError>) -> (r: Result<
        (SessionId, SessionContext),
        HsmError,
    >)
        ensures
            match r {
                Ok((id, context)) => handshake_outcome(
                    self.mac(),
                    self.host_challenge(),
                    self.device_challenge(),
                    view_received(received),
                ) == Ok::<u8, HsmError>(id.value()) && context.id() == id.value() && context.enc()
                    == self.enc() && context.mac() == self.mac() && context.counter()
                    == INITIAL_COUNTER,
                Err(e) => handshake_outcome(
                    self.mac(),
                    self.host_challenge(),
                    self.device_challenge(),
                    view_received(received),
                ) == Err::<u8, HsmError>(e),
            },
    {
        SessionContext::authenticate(
            self.keys,
            &self.host_challenge,
            &self.device_challenge,
            received,
        )
    }

    /// Overwrites the keys with zero bytes.
    pub fn wipe(&mut self)
        ensures
            final(self).enc() == zeros(KEY_SIZE as int),
            final(self).mac() == zeros(KEY_SIZE as int),
    {
        self.keys.wipe();
    }
}

impl SessionContext {
    /// The number that the device gave the session.
    pub closed spec fn id(&self) -> u8 {
        self.id.value()
    }

    /// The session's encryption key.
    pub closed spec fn enc(&self) -> Seq<u8> {
        self.keys.enc()
    }

    /// The session's authentication key.
    pub closed spec fn mac(&self) -> Seq<u8> {
        self.keys.mac()
    }

    /// The counter value of the session's next message.
    pub closed spec fn counter(&self) -> u32 {
        self.counter
    }

    /// The context of a session that the device numbered `id`, at the first
    /// counter value.
    pub fn new(id: SessionId, keys: SessionKeys) -> (r: SessionContext)
        ensures
            r.id() == id.value(),
            r.enc() == keys.enc(),
            r.mac() == keys.mac(),
            r.counter() == INITIAL_COUNTER,
    {
        SessionContext { id, keys, counter: INITIAL_COUNTER }
    }

    /// The context of a session that stands at the counter value `counter`:
    /// for the side that keeps the counter of a session that it did not open
    /// itself, as the device does.
    pub fn at_counter(id: SessionId, keys: SessionKeys, counter: u32) -> (r: SessionContext)
        ensures
            r.id() == id.value(),
            r.enc() == keys.enc(),
            r.mac() == keys.mac(),
            r.counter() == counter,
    {
        SessionContext { id, keys, counter }
    }

    /// Judges the device's answer to the handshake, and where it proves that
    /// the device holds the session's keys, makes the session's context.
    pub fn authenticate(
        keys: SessionKeys,
        host_challenge: &[u8; CHALLENGE_SIZE],
        device_challenge: &[u8; CHALLENGE_SIZE],
        received: Result<Vec<u8>, HsmError>,
    ) -> (r: Result<(SessionId, SessionContext), HsmError>)
        ensures
            match r {
                Ok((id, context)) => handshake_outcome(
                    keys.mac(),
                    host_challenge@,
                    device_challenge@,
                    view_received(received),
                ) == Ok::<u8, HsmError>(id.value()) && context.id() == id.value() && context.enc()
                    == keys.enc() && context.mac() == keys.mac() && context.counter()
                    == INITIAL_COUNTER,
                Err(e) => handshake_outcome(
                    keys.mac(),
                    host_challenge@,
                    device_challenge@,
                    view_received(received),
                ) == Err::<u8, HsmError>(e),
            },
    {
        let answer = match received {
            Ok(answer) => answer,
            Err(e) => {
                return Err(e);
            },
        };
        let response = match decode_response(answer.as_slice()) {
            Ok(response) => response,
            Err(_) => {
                return Err(HsmError::Protocol);
            },
        };
        match response.code {
            ResponseCode::Success(Command::AuthenticateSession) => {},
            _ => {
                return Err(HsmError::Authentication);
            },
        }
        if response.payload.len() != HANDSHAKE_ANSWER_SIZE {
            return Err(HsmError::Protocol);
        }
        let id = match SessionId::new(response.payload[0]) {
            Ok(id) => id,
            Err(_) => {
                return Err(HsmError::Protocol);
            },
        };
        let expected = keys.device_cryptogram(host_challenge, device_challenge);
        let found = copy_range(response.payload.as_slice(), 1, HANDSHAKE_ANSWER_SIZE);
        if !bytes_equal(expected.as_slice(), found.as_slice()) {
            return Err(HsmError::Authentication);
        }
        Ok((id, SessionContext::new(id, keys)))
    }

    /// The number that the device gave the session.
    pub fn session_id(&self) -> (r: SessionId)
        ensures
            r.value() == self.id(),
    {
        self.id
    }

    /// The counter value of the session's next message.
    pub fn message_counter(&self) -> (r: u32)
        ensures
            r == self.counter(),
    {
        self.counter
    }

    /// Whether the counter has reached the value at which the session sends
    /// no more.
    pub fn is_exhausted(&self) -> (r: bool)
        ensures
            r == (self.counter() >= COUNTER_LIMIT),
    {
        self.counter >= COUNTER_LIMIT
    }

    /// Protects a message at the session's counter value.
    pub fn encrypt_and_mac(&self, message: &[u8]) -> (r: Result<Vec<u8>, HsmError>)
        ensures
            match r {
                Ok(f) => message.len() <= MAX_MESSAGE_SIZE && f@ == sealed(
                    self.enc(),
                    self.mac(),
                    self.counter(),
                    message@,
                ),
                Err(e) => e == HsmError::Protocol && message.len() > MAX_MESSAGE_SIZE,
            },
    {
        encrypt_and_mac(&self.keys, self.counter, message)
    }

    /// Opens a frame at the session's counter value.
    pub fn verify_and_decrypt(&self, f: &[u8]) -> (r: Result<Vec<u8>, HsmError>)
        ensures
            match r {
                Ok(message) => opened(self.enc(), self.mac(), self.counter(), f@) == Some(
                    message@,
                ),
                Err(e) => e == HsmError::Integrity && opened(
                    self.enc(),
                    self.mac(),
                    self.counter(),
                    f@,
                ) is None,
            },
    {
        verify_and_decrypt(&self.keys, self.counter, f)
    }

    /// Makes the frame that carries a command at the session's counter value.
    /// A payload of more than `MAX_COMMAND_PAYLOAD_SIZE` bytes is refused.
    pub fn seal_command(&self, command: Command, payload: &[u8]) -> (r: Result<Vec<u8>, HsmError>)
        ensures
            match r {
                Ok(f) => command_frame(
                    self.id(),
                    self.enc(),
                    self.mac(),
                    self.counter(),
                    command,
                    payload@,
                ) == Some(f@),
                Err(e) => e == HsmError::Protocol && payload.len() > MAX_COMMAND_PAYLOAD_SIZE,
            },
    {
        if payload.len() > MAX_COMMAND_PAYLOAD_SIZE {
            return Err(HsmError::Protocol);
        }
        let inner = match encode_command(command, payload) {
            Ok(f) => f,
            Err(e) => {
                return Err(e);
            },
        };
        let protected = match encrypt_and_mac(&self.keys, self.counter, inner.as_slice()) {
            Ok(f) => f,
            Err(e) => {
                return Err(e);
            },
        };
        let mut wrapped: Vec<u8> = Vec::new();
        wrapped.push(self.id.to_u8());
        push_bytes(&mut wrapped, protected.as_slice());
        proof {
            lemma_unpad_pad(inner@);
        }
        encode_command(Command::SessionMessage, wrapped.as_slice())
    }

    /// Judges a frame that was received in answer to a command sent at the
    /// session's counter value, and gives the response that it carries.
    pub fn open_response(&self, command: Command, received: &[u8]) -> (r: Result<
        ResponseMessage,
        HsmError,
    >)
        ensures
            match r {
                Ok(m) => response_outcome(
                    self.id(),
                    self.enc(),
                    self.mac(),
                    self.counter(),
                    command,
                    received@,
                ) == Ok::<(ResponseCode, Seq<u8>), HsmError>((m.code, m.payload@)),
                Err(e) => response_outcome(
                    self.id(),
                    self.enc(),
                    self.mac(),
                    self.counter(),
                    command,
                    received@,
                ) == Err::<(ResponseCode, Seq<u8>), HsmError>(e),
            },
            forall|code: ResponseCode, payload: Seq<u8>|
                code.spec_answers(command) && payload.len() <= MAX_COMMAND_PAYLOAD_SIZE
                    && #[trigger] response_frame(
                    self.id(),
                    self.enc(),
                    self.mac(),
                    self.counter(),
                    code,
                    payload,
                ) == received@ ==> r is Ok && r->Ok_0.code == code && r->Ok_0.payload@ == payload,
    {
        proof {
            assert forall|code: ResponseCode, payload: Seq<u8>|
                code.spec_answers(command) && payload.len() <= MAX_COMMAND_PAYLOAD_SIZE
                    && #[trigger] response_frame(
                    self.id(),
                    self.enc(),
                    self.mac(),
                    self.counter(),
                    code,
                    payload,
                ) == received@ implies honest_response(
                self.id(),
                self.enc(),
                self.mac(),
                self.counter(),
                code,
                payload,
                received@,
            ) by {
                lemma_honest_response(
                    self.id(),
                    self.enc(),
                    self.mac(),
                    self.counter(),
                    code,
                    payload,
                );
            }
        }
        let outer = match decode_response(received) {
            Ok(m) => m,
            Err(_) => {
                return Err(HsmError::Protocol);
            },
        };
        match outer.code {
            ResponseCode::Success(Command::SessionMessage) => {},
            _ => {
                return Err(HsmError::Integrity);
            },
        }
        if outer.payload.len() < 1 || outer.payload[0] != self.id.to_u8() {
            return Err(HsmError::Integrity);
        }
        let protected = copy_range(outer.payload.as_slice(), 1, outer.payload.len());
        let inner = match verify_and_decrypt(&self.keys, self.counter, protected.as_slice()) {
            Ok(m) => m,
            Err(_) => {
                return Err(HsmError::Integrity);
            },
        };
        let response = match decode_response(inner.as_slice()) {
            Ok(m) => m,
            Err(_) => {
                return Err(HsmError::Protocol);
            },
        };
        if response.code.answers(command) {
            Ok(response)
        } else {
            Err(HsmError::Integrity)
        }
    }

    /// Judges what the transport handed back in answer to a command sent at
    /// the session's counter value: the transport's error stands as it is,
    /// and a frame is judged by `open_response`.
    pub fn complete_exchange(&self, command: Command, received: Result<Vec<u8>, HsmError>) -> (r:
        Result<ResponseMessage, HsmError>)
        ensures
            match r {
                Ok(m) => exchange_outcome(
                    self.id(),
                    self.enc(),
                    self.mac(),
                    self.counter(),
                    command,
                    view_received(received),
                ) == Ok::<(ResponseCode, Seq<u8>), HsmError>((m.code, m.payload@)),
                Err(e) => exchange_outcome(
                    self.id(),
                    self.enc(),
                    self.mac(),
                    self.counter(),
                    command,
                    view_received(received),
                ) == Err::<(ResponseCode, Seq<u8>), HsmError>(e),
            },
    {
        match received {
            Ok(answer) => self.open_response(command, answer.as_slice()),
            Err(e) => Err(e),
        }
    }

    /// Moves to the next counter value, after an exchange that was completed.
    /// At `COUNTER_LIMIT` there is no next value: the context stays as it is.
    pub fn advance(&mut self) -> (r: Result<(), HsmError>)
        ensures
            final(self).id() == old(self).id(),
            final(self).enc() == old(self).enc(),
            final(self).mac() == old(self).mac(),
            r is Ok <==> old(self).counter() < COUNTER_LIMIT,
            r is Ok ==> final(self).counter() == old(self).counter() + 1,
            r matches Err(e) ==> e == HsmError::CounterExhausted,
            r is Err ==> final(self).counter() == old(self).counter(),
    {
        if self.counter >= COUNTER_LIMIT {
            return Err(HsmError::CounterExhausted);
        }
        self.counter = self.counter + 1;
        Ok(())
    }

    /// Overwrites the session's keys with zero bytes. The number and the
    /// counter stay.
    pub fn wipe(&mut self)
        ensures
            final(self).counter() == old(self).counter(),
            final(self).id() == old(self).id(),
            final(self).enc() == zeros(KEY_SIZE as int),
            final(self).mac() == zeros(KEY_SIZE as int),
    {
        self.keys.wipe();
    }
}

} // verus!
