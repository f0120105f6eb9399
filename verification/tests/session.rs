use std::cell::RefCell;
use std::rc::Rc;

use yubihsm_client::channel::{encrypt_and_mac, verify_and_decrypt, Credential, SessionKeys};
use yubihsm_client::command::Command;
use yubihsm_client::context::{
    handshake_frame, SessionContext, SessionId, COUNTER_LIMIT, INITIAL_COUNTER,
    MAX_COMMAND_PAYLOAD_SIZE, MAX_SESSIONS,
};
use yubihsm_client::envelope::{
    decode_command, encode_response, ResponseMessage,
};
use yubihsm_client::error::{HsmError, TransportErrorKind};
use yubihsm_client::reset::{reset, reset_outcome, ResetResponse};
use yubihsm_client::response::ResponseCode;
use yubihsm_client::session::{Adapter, Session, SessionEvent, SessionState};

const HOST_CHALLENGE: [u8; 8] = [1, 2, 3, 4, 5, 6, 7, 8];
const DEVICE_CHALLENGE: [u8; 8] = [0xa1, 0xa2, 0xa3, 0xa4, 0xa5, 0xa6, 0xa7, 0xa8];

const HANDSHAKE_REQUEST: [u8; 19] = [
    0x04, 0x00, 0x10, 0x01, 0x02, 0x03, 0x04, 0x05, 0x06, 0x07, 0x08, 0xb4, 0x13, 0x66, 0x99,
    0x96, 0x32, 0xa7, 0xe1,
];

const HANDSHAKE_ANSWER: [u8; 12] = [
    0x84, 0x00, 0x09, 0x03, 0xec, 0x7b, 0xaa, 0x7a, 0x71, 0x64, 0x1f, 0x18,
];

const ECHO_COMMAND_FRAME: [u8; 28] = [
    0x05, 0x00, 0x19, 0x03, 0x7f, 0x3e, 0x1c, 0x3e, 0x7f, 0x68, 0x11, 0xa0, 0xe1, 0xe5, 0x22,
    0x1d, 0xd6, 0x59, 0xd1, 0xf4, 0x78, 0x46, 0x68, 0x06, 0x4d, 0x87, 0x27, 0xb8,
];

const ECHO_RESPONSE_FRAME: [u8; 28] = [
    0x85, 0x00, 0x19, 0x03, 0xf5, 0x71, 0xf2, 0x17, 0xd3, 0xf1, 0x36, 0x85, 0x10, 0x00, 0x21,
    0x53, 0x61, 0x86, 0xc5, 0xa5, 0x4d, 0x9c, 0xe7, 0x1f, 0x47, 0xa3, 0xe3, 0x56,
];

fn credential() -> Credential {
    Credential {
        enc_key: [
            0x40, 0x41, 0x42, 0x43, 0x44, 0x45, 0x46, 0x47, 0x48, 0x49, 0x4a, 0x4b, 0x4c, 0x4d,
            0x4e, 0x4f,
        ],
        mac_key: [
            0x50, 0x51, 0x52, 0x53, 0x54, 0x55, 0x56, 0x57, 0x58, 0x59, 0x5a, 0x5b, 0x5c, 0x5d,
            0x5e, 0x5f,
        ],
    }
}

/// Default auth key ID slot
const DEFAULT_AUTH_KEY_ID: u16 = 1;

/// Default password
const DEFAULT_PASSWORD: &str = "password";

/// The credential in a slot of the device in memory: the default slot holds
/// the keys that the default password gives.
fn credential_of(key_id: u16, password: &str) -> Credential {
    assert_eq!((key_id, password), (DEFAULT_AUTH_KEY_ID, DEFAULT_PASSWORD));
    default_credential()
}

fn default_credential() -> Credential {
    Credential {
        enc_key: [
            0x09, 0x0b, 0x47, 0xdb, 0xed, 0x59, 0x56, 0x54, 0x90, 0x1d, 0xee, 0x1c, 0xc6, 0x55,
            0xe4, 0x20,
        ],
        mac_key: [
            0x59, 0x2f, 0xd4, 0x83, 0xf7, 0x59, 0xe2, 0x99, 0x09, 0xa0, 0x4c, 0x45, 0x05, 0xd2,
            0xce, 0x0a,
        ],
    }
}

fn keys() -> SessionKeys {
    SessionKeys::derive_keys(&credential(), &HOST_CHALLENGE, &DEVICE_CHALLENGE)
}

/// What the device in these tests does wrong, if anything.
#[derive(Clone, Copy, Debug, PartialEq)]
enum Fault {
    Nothing,
    WrongCryptogram,
    RefusesHandshake,
    ShortHandshakeAnswer,
    SessionNumberTooLarge,
    AltersResponse,
    RepeatsResponse,
    EchoesCommand,
    AnswersOtherCommand,
    AnswersOtherSession,
    AnswersInTheClear,
    AnswersBeforeRestart,
    SendFails(HsmError),
    ReceiveFails(HsmError),
    ReceivesNoise,
}

/// A device in memory, built from the library's own functions.
struct Device {
    credential: fn() -> Credential,
    id: u8,
    keys: Option<SessionKeys>,
    counter: u32,
    answer: Option<Vec<u8>>,
    last_answer: Option<Vec<u8>>,
    requests: Vec<Vec<u8>>,
    commands: Vec<(Command, Vec<u8>)>,
    handshake_fault: Fault,
    fault: Fault,
}

impl Device {
    fn new(id: u8) -> Device {
        Device::with_credential(id, credential)
    }

    fn with_credential(id: u8, credential: fn() -> Credential) -> Device {
        Device {
            credential,
            id,
            keys: None,
            counter: INITIAL_COUNTER,
            answer: None,
            last_answer: None,
            requests: vec![],
            commands: vec![],
            handshake_fault: Fault::Nothing,
            fault: Fault::Nothing,
        }
    }

    fn handshake(&mut self, payload: &[u8]) -> Option<Vec<u8>> {
        assert_eq!(payload.len(), 16);
        let mut host_challenge = [0u8; 8];
        host_challenge.copy_from_slice(&payload[..8]);
        let keys =
            SessionKeys::derive_keys(&(self.credential)(), &host_challenge, &DEVICE_CHALLENGE);
        if payload[8..] != keys.host_cryptogram(&host_challenge, &DEVICE_CHALLENGE) {
            return Some(encode_response(ResponseCode::Error, &[0x04]).unwrap());
        }
        let mut cryptogram = keys.device_cryptogram(&host_challenge, &DEVICE_CHALLENGE);
        let mut id = self.id;
        match self.handshake_fault {
            Fault::WrongCryptogram => cryptogram[7] ^= 1,
            Fault::RefusesHandshake => {
                return Some(encode_response(ResponseCode::Error, &[0x04]).unwrap())
            }
            Fault::ShortHandshakeAnswer => {
                return Some(
                    encode_response(ResponseCode::Success(Command::AuthenticateSession), &[id])
                        .unwrap(),
                )
            }
            Fault::SessionNumberTooLarge => id = MAX_SESSIONS,
            _ => {}
        }
        let mut answer = vec![id];
        answer.extend_from_slice(&cryptogram);
        self.keys = Some(keys);
        self.counter = INITIAL_COUNTER;
        Some(encode_response(ResponseCode::Success(Command::AuthenticateSession), &answer).unwrap())
    }

    fn session_message(&mut self, payload: &[u8]) -> Option<Vec<u8>> {
        let keys = self.keys.as_ref().expect("no session");
        assert_eq!(payload[0], self.id);
        let inner = verify_and_decrypt(keys, self.counter, &payload[1..]).expect("bad command");
        let command = decode_command(&inner).expect("bad inner command");
        self.commands.push((command.command, command.payload.clone()));
        let (code, body) = match command.command {
            Command::Echo => (ResponseCode::Success(Command::Echo), command.payload.clone()),
            Command::GetPseudoRandom => (ResponseCode::Success(Command::GetPseudoRandom), vec![4; 4]),
            // a device that restarts does not answer
            Command::ResetDevice if self.fault == Fault::Nothing => return None,
            Command::ResetDevice => (ResponseCode::Success(Command::ResetDevice), vec![1]),
            _ => (ResponseCode::Error, vec![0x0b]),
        };
        let code = match self.fault {
            Fault::AnswersOtherCommand => ResponseCode::Success(Command::DeviceInfo),
            _ => code,
        };
        let inner = match self.fault {
            Fault::EchoesCommand => inner,
            _ => encode_response(code, &body).unwrap(),
        };
        let mut wrapped = match self.fault {
            Fault::AnswersOtherSession => vec![self.id ^ 1],
            _ => vec![self.id],
        };
        match self.fault {
            Fault::AnswersInTheClear => wrapped.extend_from_slice(&inner),
            _ => wrapped.extend_from_slice(&encrypt_and_mac(keys, self.counter, &inner).unwrap()),
        }
        if self.fault == Fault::AltersResponse {
            let last = wrapped.len() - 9;
            wrapped[last] ^= 0x10;
        }
        let answer = encode_response(ResponseCode::Success(Command::SessionMessage), &wrapped).unwrap();
        self.counter += 1;
        if self.fault == Fault::RepeatsResponse {
            if let Some(previous) = self.last_answer.clone() {
                return Some(previous);
            }
        }
        self.last_answer = Some(answer.clone());
        Some(answer)
    }
}

/// The transport to the device in memory.
struct Link(Rc<RefCell<Device>>);

impl Adapter for Link {
    fn send(&mut self, frame: &[u8]) -> Result<(), HsmError> {
        let mut device = self.0.borrow_mut();
        device.requests.push(frame.to_vec());
        if let Fault::SendFails(e) = device.fault {
            return Err(e);
        }
        let request = decode_command(frame).expect("the session sent no command frame");
        device.answer = match request.command {
            Command::AuthenticateSession => device.handshake(&request.payload),
            Command::SessionMessage => device.session_message(&request.payload),
            _ => Some(encode_response(ResponseCode::Error, &[0x02]).unwrap()),
        };
        Ok(())
    }

    fn receive(&mut self) -> Result<Vec<u8>, HsmError> {
        let mut device = self.0.borrow_mut();
        match device.fault {
            Fault::ReceiveFails(e) => return Err(e),
            Fault::ReceivesNoise => return Ok(vec![0x85, 0x00]),
            _ => {}
        }
        match device.answer.take() {
            Some(answer) => Ok(answer),
            // a device that restarts leaves the transport without a response
            None => Err(HsmError::Protocol),
        }
    }
}

fn unauthenticated(id: u8) -> (Rc<RefCell<Device>>, Session<Link>) {
    let device = Rc::new(RefCell::new(Device::new(id)));
    let session = Session::new(Link(device.clone()));
    (device, session)
}

fn established(id: u8) -> (Rc<RefCell<Device>>, Session<Link>) {
    let (device, mut session) = unauthenticated(id);
    session
        .authenticate_with(&credential(), &DEVICE_CHALLENGE, &HOST_CHALLENGE)
        .unwrap_or_else(|err| panic!("error creating session: {:?}", err));
    (device, session)
}

fn echo_test(session: &mut Session<Link>) {
    let message = b"Hello, world!";
    let echo_result = session
        .send_command(Command::Echo, message)
        .unwrap_or_else(|err| panic!("error sending echo: {:?}", err));

    assert_eq!(&message[..], &echo_result.payload[..]);
}

/// A session with the device in memory, opened with a password.
fn create_session_from_password(key_id: u16, password: &str) -> Result<Session<Link>, HsmError> {
    let device = Rc::new(RefCell::new(Device::with_credential(0, default_credential)));
    let mut session = Session::new(Link(device));
    session.authenticate(&credential_of(key_id, password), &DEVICE_CHALLENGE)?;
    Ok(session)
}

#[test]
fn yubihsm_integration_test() {
    let mut session = create_session_from_password(DEFAULT_AUTH_KEY_ID, DEFAULT_PASSWORD)
        .unwrap_or_else(|err| panic!("error creating session: {:?}", err));

    assert_eq!(session.session_id().unwrap(), SessionId::new(0).unwrap());
    echo_test(&mut session);
}

#[test]
fn mockhsm_integration_test() {
    let mut session = create_session_from_password(DEFAULT_AUTH_KEY_ID, DEFAULT_PASSWORD)
        .unwrap_or_else(|err| panic!("error creating session: {:?}", err));

    assert_eq!(session.session_id().unwrap(), SessionId::new(0).unwrap());
    echo_test(&mut session);
    assert_eq!(session.message_counter(), INITIAL_COUNTER + 1);
}

#[test]
fn new_session_is_unauthenticated() {
    let (device, session) = unauthenticated(3);
    assert_eq!(session.current_state(), SessionState::Unauthenticated);
    assert_eq!(session.session_id(), None);
    assert_eq!(session.message_counter(), INITIAL_COUNTER);
    assert!(device.borrow().requests.is_empty());
}

#[test]
fn handshake_establishes_the_session() {
    let (device, mut session) = unauthenticated(3);
    let id = session.authenticate_with(&credential(), &DEVICE_CHALLENGE, &HOST_CHALLENGE);
    assert_eq!(id, Ok(SessionId::new(3).unwrap()));
    assert_eq!(id.unwrap().to_u8(), 3);
    assert_eq!(session.current_state(), SessionState::Established);
    assert_eq!(session.session_id(), Some(SessionId::new(3).unwrap()));
    assert_eq!(session.message_counter(), 1);
    assert_eq!(device.borrow().requests, vec![HANDSHAKE_REQUEST.to_vec()]);
}

#[test]
fn handshake_frame_known_answer() {
    assert_eq!(
        handshake_frame(&keys(), &HOST_CHALLENGE, &DEVICE_CHALLENGE),
        HANDSHAKE_REQUEST.to_vec()
    );
}

#[test]
fn handshake_answer_is_judged() {
    let judge = |received: Result<Vec<u8>, HsmError>| {
        SessionContext::authenticate(keys(), &HOST_CHALLENGE, &DEVICE_CHALLENGE, received)
            .map(|(id, context)| (id.to_u8(), context.message_counter()))
    };
    assert_eq!(judge(Ok(HANDSHAKE_ANSWER.to_vec())), Ok((3, 1)));
    // the transport's error stands
    assert_eq!(
        judge(Err(HsmError::Transport(TransportErrorKind::Timeout))),
        Err(HsmError::Transport(TransportErrorKind::Timeout))
    );
    // no frame of a response
    assert_eq!(judge(Ok(vec![])), Err(HsmError::Protocol));
    assert_eq!(judge(Ok(HANDSHAKE_ANSWER[..11].to_vec())), Err(HsmError::Protocol));
    // the device refuses
    assert_eq!(judge(Ok(vec![0x7f, 0, 1, 4])), Err(HsmError::Authentication));
    // the success of another command
    let mut other = HANDSHAKE_ANSWER.to_vec();
    other[0] = 0x83;
    assert_eq!(judge(Ok(other)), Err(HsmError::Authentication));
    // a payload of another length
    assert_eq!(judge(Ok(vec![0x84, 0, 1, 3])), Err(HsmError::Protocol));
    let mut long = HANDSHAKE_ANSWER.to_vec();
    long.push(0);
    long[2] = 10;
    assert_eq!(judge(Ok(long)), Err(HsmError::Protocol));
    // a session that the device cannot have
    let mut numbered = HANDSHAKE_ANSWER.to_vec();
    numbered[3] = 16;
    assert_eq!(judge(Ok(numbered)), Err(HsmError::Protocol));
    // every byte of the cryptogram counts
    for i in 4..12 {
        let mut altered = HANDSHAKE_ANSWER.to_vec();
        altered[i] ^= 0x80;
        assert_eq!(judge(Ok(altered)), Err(HsmError::Authentication));
    }
}

#[test]
fn failed_handshake_closes_the_session() {
    for (fault, error) in [
        (Fault::WrongCryptogram, HsmError::Authentication),
        (Fault::RefusesHandshake, HsmError::Authentication),
        (Fault::ShortHandshakeAnswer, HsmError::Protocol),
        (Fault::SessionNumberTooLarge, HsmError::Protocol),
    ] {
        let (device, mut session) = unauthenticated(3);
        device.borrow_mut().handshake_fault = fault;
        assert_eq!(
            session.authenticate_with(&credential(), &DEVICE_CHALLENGE, &HOST_CHALLENGE),
            Err(error)
        );
        assert_eq!(session.current_state(), SessionState::Closed);
        assert_eq!(session.session_id(), None);
        // a closed session does not authenticate again
        assert_eq!(
            session.authenticate_with(&credential(), &DEVICE_CHALLENGE, &HOST_CHALLENGE),
            Err(HsmError::InvalidState)
        );
        assert_eq!(session.authenticate(&credential(), &DEVICE_CHALLENGE), Err(HsmError::InvalidState));
        assert_eq!(device.borrow().requests.len(), 1);
    }
}

#[test]
fn handshake_with_another_credential_fails() {
    let (_device, mut session) = unauthenticated(3);
    let mut other = credential();
    other.mac_key[0] ^= 1;
    assert_eq!(
        session.authenticate_with(&other, &DEVICE_CHALLENGE, &HOST_CHALLENGE),
        Err(HsmError::Authentication)
    );
    assert_eq!(session.current_state(), SessionState::Closed);
}

#[test]
fn handshake_over_a_failing_transport() {
    for fault in [
        Fault::SendFails(HsmError::Transport(TransportErrorKind::ConnectionReset)),
        Fault::ReceiveFails(HsmError::Transport(TransportErrorKind::Timeout)),
    ] {
        let (device, mut session) = unauthenticated(3);
        device.borrow_mut().fault = fault;
        let expected = match fault {
            Fault::SendFails(e) | Fault::ReceiveFails(e) => e,
            _ => unreachable!(),
        };
        assert_eq!(session.authenticate(&credential(), &DEVICE_CHALLENGE), Err(expected));
        assert_eq!(session.current_state(), SessionState::Closed);
    }
}

#[test]
fn authenticated_twice_is_refused() {
    let (_device, mut session) = established(3);
    assert_eq!(
        session.authenticate_with(&credential(), &DEVICE_CHALLENGE, &HOST_CHALLENGE),
        Err(HsmError::InvalidState)
    );
    assert_eq!(session.current_state(), SessionState::Closed);
}

#[test]
fn fresh_challenge_for_each_handshake() {
    let (first, mut session) = unauthenticated(1);
    session.authenticate(&credential(), &DEVICE_CHALLENGE).unwrap();
    let (second, mut session) = unauthenticated(1);
    session.authenticate(&credential(), &DEVICE_CHALLENGE).unwrap();
    let a = first.borrow().requests[0].clone();
    let b = second.borrow().requests[0].clone();
    assert_eq!(a.len(), 19);
    assert_eq!(&a[..3], &[0x04, 0x00, 0x10]);
    assert_ne!(a[3..11], b[3..11]);
}

#[test]
fn command_before_handshake_is_refused() {
    let (device, mut session) = unauthenticated(3);
    assert_eq!(session.send_command(Command::Echo, b"x"), Err(HsmError::InvalidState));
    assert_eq!(session.current_state(), SessionState::Closed);
    assert_eq!(session.message_counter(), INITIAL_COUNTER);
    assert!(device.borrow().requests.is_empty());
}

#[test]
fn echo_round_trip() {
    let (device, mut session) = established(3);
    let response = session.send_command(Command::Echo, b"hello");
    assert_eq!(
        response,
        Ok(ResponseMessage { code: ResponseCode::Success(Command::Echo), payload: b"hello".to_vec() })
    );
    assert_eq!(session.current_state(), SessionState::Established);
    assert_eq!(session.message_counter(), 2);
    assert_eq!(device.borrow().requests[1], ECHO_COMMAND_FRAME.to_vec());
    assert_eq!(device.borrow().commands, vec![(Command::Echo, b"hello".to_vec())]);
}

#[test]
fn counter_moves_by_one_for_each_success() {
    let (device, mut session) = established(3);
    for i in 0..20u32 {
        assert_eq!(session.message_counter(), INITIAL_COUNTER + i);
        echo_test(&mut session);
        assert_eq!(session.message_counter(), INITIAL_COUNTER + i + 1);
        assert_eq!(device.borrow().counter, INITIAL_COUNTER + i + 1);
    }
    assert_eq!(session.session_id(), Some(SessionId::new(3).unwrap()));
}

#[test]
fn device_error_is_a_response() {
    let (_device, mut session) = established(3);
    let response = session.send_command(Command::DeleteObject, &[0, 1, 3]).unwrap();
    assert_eq!(response.code, ResponseCode::Error);
    assert_eq!(response.payload, vec![0x0b]);
    assert_eq!(session.current_state(), SessionState::Established);
    assert_eq!(session.message_counter(), 2);
    echo_test(&mut session);
}

#[test]
fn failed_command_closes_the_session() {
    for (fault, error) in [
        (Fault::AltersResponse, HsmError::Integrity),
        (Fault::EchoesCommand, HsmError::Protocol),
        (Fault::AnswersOtherCommand, HsmError::Integrity),
        (Fault::AnswersOtherSession, HsmError::Integrity),
        (Fault::AnswersInTheClear, HsmError::Integrity),
        (Fault::ReceivesNoise, HsmError::Protocol),
        (Fault::ReceiveFails(HsmError::Protocol), HsmError::Protocol),
        (
            Fault::ReceiveFails(HsmError::Transport(TransportErrorKind::Timeout)),
            HsmError::Transport(TransportErrorKind::Timeout),
        ),
        (
            Fault::SendFails(HsmError::Transport(TransportErrorKind::ConnectionReset)),
            HsmError::Transport(TransportErrorKind::ConnectionReset),
        ),
        (
            Fault::SendFails(HsmError::Transport(TransportErrorKind::AddrInvalid)),
            HsmError::Transport(TransportErrorKind::AddrInvalid),
        ),
    ] {
        let (device, mut session) = established(3);
        echo_test(&mut session);
        echo_test(&mut session);
        assert_eq!(session.message_counter(), 3);
        device.borrow_mut().fault = fault;
        assert_eq!(session.send_command(Command::Echo, b"hello"), Err(error), "{:?}", fault);
        assert_eq!(session.current_state(), SessionState::Closed);
        assert_eq!(session.message_counter(), 3);
        assert_eq!(session.session_id(), None);
        // nothing more is sent on a closed session
        let sent = device.borrow().requests.len();
        device.borrow_mut().fault = Fault::Nothing;
        assert_eq!(session.send_command(Command::Echo, b"hello"), Err(HsmError::InvalidState));
        assert_eq!(device.borrow().requests.len(), sent);
        assert_eq!(session.message_counter(), 3);
    }
}

#[test]
fn repeated_response_is_refused() {
    let (device, mut session) = established(3);
    echo_test(&mut session);
    device.borrow_mut().fault = Fault::RepeatsResponse;
    // the device answers the same command with the frame of the exchange before
    let result = session.send_command(Command::Echo, b"Hello, world!");
    assert_eq!(result, Err(HsmError::Integrity));
    assert_eq!(session.current_state(), SessionState::Closed);
    assert_eq!(session.message_counter(), 2);
}

#[test]
fn oversized_command_is_refused() {
    let (device, mut session) = established(3);
    let longest = vec![0x33u8; MAX_COMMAND_PAYLOAD_SIZE];
    let response = session.send_command(Command::Echo, &longest).unwrap();
    assert_eq!(response.payload, longest);
    assert_eq!(device.borrow().requests[1].len(), 3 + 1 + 65520 + 8);

    let too_long = vec![0x33u8; MAX_COMMAND_PAYLOAD_SIZE + 1];
    assert_eq!(session.send_command(Command::PutOpaque, &too_long), Err(HsmError::Protocol));
    assert_eq!(session.current_state(), SessionState::Closed);
    assert_eq!(session.message_counter(), 2);
    assert_eq!(device.borrow().requests.len(), 2);
}

#[test]
fn close_is_idempotent() {
    let (_device, mut session) = established(3);
    echo_test(&mut session);
    session.close();
    assert_eq!(session.current_state(), SessionState::Closed);
    assert_eq!(session.message_counter(), 2);
    assert_eq!(session.session_id(), None);
    session.close();
    assert_eq!(session.current_state(), SessionState::Closed);
    assert_eq!(session.message_counter(), 2);
    assert_eq!(session.send_command(Command::Echo, b"x"), Err(HsmError::InvalidState));

    let (_device, mut session) = unauthenticated(3);
    session.close();
    assert_eq!(session.current_state(), SessionState::Closed);
    assert_eq!(
        session.authenticate_with(&credential(), &DEVICE_CHALLENGE, &HOST_CHALLENGE),
        Err(HsmError::InvalidState)
    );
}

#[test]
fn close_releases_the_transport() {
    let (device, mut session) = established(3);
    assert_eq!(Rc::strong_count(&device), 2);
    session.close();
    assert_eq!(Rc::strong_count(&device), 1);
}

#[test]
fn state_transitions() {
    let events = [
        SessionEvent::HandshakeStarted,
        SessionEvent::HandshakeVerified,
        SessionEvent::CommandSent,
        SessionEvent::ExchangeCompleted,
        SessionEvent::Failed,
        SessionEvent::CloseRequested,
    ];
    for state in [
        SessionState::Unauthenticated,
        SessionState::Authenticating,
        SessionState::Established,
        SessionState::Closed,
    ] {
        for event in events {
            let expected = match (state, event) {
                (SessionState::Unauthenticated, SessionEvent::HandshakeStarted) => {
                    SessionState::Authenticating
                }
                (SessionState::Authenticating, SessionEvent::HandshakeVerified) => {
                    SessionState::Established
                }
                (SessionState::Established, SessionEvent::CommandSent) => {
                    SessionState::Established
                }
                (SessionState::Established, SessionEvent::ExchangeCompleted) => {
                    SessionState::Established
                }
                _ => SessionState::Closed,
            };
            assert_eq!(state.next(event), expected);
        }
    }
}

#[test]
fn session_numbers() {
    for id in 0..16u8 {
        assert_eq!(SessionId::new(id).unwrap().to_u8(), id);
    }
    for id in [16u8, 17, 0x80, 0xff] {
        assert_eq!(SessionId::new(id), Err(HsmError::Protocol));
    }
}

#[test]
fn context_frames_known_answer() {
    let context = SessionContext::new(SessionId::new(3).unwrap(), keys());
    assert_eq!(context.message_counter(), 1);
    assert_eq!(context.session_id().to_u8(), 3);
    assert!(!context.is_exhausted());
    assert_eq!(context.seal_command(Command::Echo, b"hello"), Ok(ECHO_COMMAND_FRAME.to_vec()));
    assert_eq!(
        context.open_response(Command::Echo, &ECHO_RESPONSE_FRAME),
        Ok(ResponseMessage { code: ResponseCode::Success(Command::Echo), payload: b"hello".to_vec() })
    );
    assert_eq!(
        context.encrypt_and_mac(b"hello"),
        encrypt_and_mac(&keys(), 1, b"hello")
    );
    let frame = context.encrypt_and_mac(b"hello").unwrap();
    assert_eq!(context.verify_and_decrypt(&frame), Ok(b"hello".to_vec()));
}

#[test]
fn context_judges_responses() {
    let mut context = SessionContext::new(SessionId::new(3).unwrap(), keys());
    // the response to another command
    assert_eq!(
        context.open_response(Command::DeviceInfo, &ECHO_RESPONSE_FRAME),
        Err(HsmError::Integrity)
    );
    // the command itself, handed back
    assert_eq!(
        context.open_response(Command::Echo, &ECHO_COMMAND_FRAME),
        Err(HsmError::Protocol)
    );
    // a session message of another session
    let other = SessionContext::new(SessionId::new(4).unwrap(), keys());
    assert_eq!(
        other.open_response(Command::Echo, &ECHO_RESPONSE_FRAME),
        Err(HsmError::Integrity)
    );
    // an error of the device outside the session
    assert_eq!(context.open_response(Command::Echo, &[0x7f, 0, 1, 9]), Err(HsmError::Integrity));
    // a session message without a session number
    assert_eq!(context.open_response(Command::Echo, &[0x85, 0, 0]), Err(HsmError::Integrity));
    // no frame at all
    assert_eq!(context.open_response(Command::Echo, &[]), Err(HsmError::Protocol));
    assert_eq!(
        context.open_response(Command::Echo, &ECHO_RESPONSE_FRAME[..27]),
        Err(HsmError::Protocol)
    );
    // what the transport reports stands
    assert_eq!(
        context.complete_exchange(Command::Echo, Err(HsmError::Protocol)),
        Err(HsmError::Protocol)
    );
    assert_eq!(
        context.complete_exchange(
            Command::Echo,
            Err(HsmError::Transport(TransportErrorKind::ConnectionReset))
        ),
        Err(HsmError::Transport(TransportErrorKind::ConnectionReset))
    );
    assert_eq!(
        context
            .complete_exchange(Command::Echo, Ok(ECHO_RESPONSE_FRAME.to_vec()))
            .map(|m| m.payload),
        Ok(b"hello".to_vec())
    );
    // at the next counter value the same frame is refused
    assert_eq!(context.advance(), Ok(()));
    assert_eq!(context.message_counter(), 2);
    assert_eq!(
        context.open_response(Command::Echo, &ECHO_RESPONSE_FRAME),
        Err(HsmError::Integrity)
    );
    // and without the keys too
    let mut wiped = SessionContext::new(SessionId::new(3).unwrap(), keys());
    wiped.wipe();
    assert_eq!(wiped.open_response(Command::Echo, &ECHO_RESPONSE_FRAME), Err(HsmError::Integrity));
    assert_eq!(wiped.message_counter(), 1);
}

#[test]
fn reset_takes_the_missing_response_for_success() {
    let (device, session) = established(3);
    assert_eq!(reset(session), Ok(()));
    assert_eq!(device.borrow().commands, vec![(Command::ResetDevice, vec![])]);
    // the session let go of the transport
    assert_eq!(Rc::strong_count(&device), 1);

    let (device, session) = established(3);
    device.borrow_mut().fault = Fault::ReceiveFails(HsmError::Protocol);
    assert_eq!(reset(session), Ok(()));

    let (device, session) = established(3);
    device.borrow_mut().fault = Fault::ReceivesNoise;
    assert_eq!(reset(session), Ok(()));

    // a device that answers before it restarts
    let (device, session) = established(3);
    device.borrow_mut().fault = Fault::AnswersBeforeRestart;
    assert_eq!(reset(session), Ok(()));
}

#[test]
fn reset_fails_on_other_errors() {
    for kind in [
        TransportErrorKind::Timeout,
        TransportErrorKind::ConnectionReset,
        TransportErrorKind::AddrInvalid,
    ] {
        let (device, session) = established(3);
        device.borrow_mut().fault = Fault::ReceiveFails(HsmError::Transport(kind));
        assert_eq!(reset(session), Err(HsmError::Transport(kind)));

        let (device, session) = established(3);
        device.borrow_mut().fault = Fault::SendFails(HsmError::Transport(kind));
        assert_eq!(reset(session), Err(HsmError::Transport(kind)));
    }
    // a device that answers, with a frame that does not verify
    let (device, session) = established(3);
    device.borrow_mut().fault = Fault::AnswersOtherSession;
    assert_eq!(reset(session), Err(HsmError::Integrity));

    let (_device, session) = unauthenticated(3);
    assert_eq!(reset(session), Err(HsmError::InvalidState));

    let (_device, mut session) = established(3);
    session.close();
    assert_eq!(reset(session), Err(HsmError::InvalidState));
}

#[test]
fn only_reset_takes_a_protocol_error_for_success() {
    let (device, mut session) = established(3);
    device.borrow_mut().fault = Fault::ReceiveFails(HsmError::Protocol);
    assert_eq!(session.send_command(Command::ResetDevice, &[]), Err(HsmError::Protocol));
    assert_eq!(session.current_state(), SessionState::Closed);
}

#[test]
fn reset_outcomes() {
    let response = ResponseMessage { code: ResponseCode::Success(Command::ResetDevice), payload: vec![] };
    assert_eq!(reset_outcome(Ok(response)), Ok(()));
    let refused = ResponseMessage { code: ResponseCode::Error, payload: vec![9] };
    assert_eq!(reset_outcome(Ok(refused)), Ok(()));
    assert_eq!(reset_outcome(Err(HsmError::Protocol)), Ok(()));
    for e in [
        HsmError::Deserialization,
        HsmError::Authentication,
        HsmError::Integrity,
        HsmError::Transport(TransportErrorKind::Timeout),
        HsmError::Transport(TransportErrorKind::ConnectionReset),
        HsmError::Transport(TransportErrorKind::AddrInvalid),
        HsmError::ChainVerification { item: 1 },
        HsmError::InvalidState,
        HsmError::CounterExhausted,
        HsmError::RandomSource,
    ] {
        assert_eq!(reset_outcome(Err(e)), Err(e));
    }
}

#[test]
fn reset_response_codec() {
    assert_eq!(ResetResponse::decode(&[7]).unwrap().value(), 7);
    assert_eq!(ResetResponse::decode(&[7]).unwrap().encode(), vec![7]);
    assert_eq!(ResetResponse::decode(&[]), Err(HsmError::Deserialization));
    assert_eq!(ResetResponse::decode(&[7, 0]), Err(HsmError::Deserialization));
}

/// A transport that must not be used: the caller drives the exchange.
struct Unused;

impl Adapter for Unused {
    fn send(&mut self, _frame: &[u8]) -> Result<(), HsmError> {
        panic!("nothing is sent over this transport")
    }

    fn receive(&mut self) -> Result<Vec<u8>, HsmError> {
        panic!("nothing is received over this transport")
    }
}

fn driven() -> Session<Unused> {
    let mut session = Session::new(Unused);
    assert_eq!(
        session.begin_authentication_with(&credential(), &DEVICE_CHALLENGE, &HOST_CHALLENGE),
        Ok(HANDSHAKE_REQUEST.to_vec())
    );
    assert_eq!(session.current_state(), SessionState::Authenticating);
    assert_eq!(session.session_id(), None);
    assert_eq!(
        session.complete_authentication(Ok(HANDSHAKE_ANSWER.to_vec())),
        Ok(SessionId::new(3).unwrap())
    );
    assert_eq!(session.current_state(), SessionState::Established);
    session
}

#[test]
fn exchange_in_two_halves() {
    let mut session = driven();
    assert_eq!(session.pending_command(), None);
    assert_eq!(session.begin_command(Command::Echo, b"hello"), Ok(ECHO_COMMAND_FRAME.to_vec()));
    assert_eq!(session.pending_command(), Some(Command::Echo));
    assert_eq!(session.message_counter(), 1);
    assert_eq!(
        session.complete_command(Ok(ECHO_RESPONSE_FRAME.to_vec())),
        Ok(ResponseMessage { code: ResponseCode::Success(Command::Echo), payload: b"hello".to_vec() })
    );
    assert_eq!(session.pending_command(), None);
    assert_eq!(session.message_counter(), 2);
    assert_eq!(session.current_state(), SessionState::Established);
}

#[test]
fn response_of_an_earlier_exchange_is_refused() {
    let mut session = driven();
    session.begin_command(Command::Echo, b"hello").unwrap();
    session.complete_command(Ok(ECHO_RESPONSE_FRAME.to_vec())).unwrap();
    // the same command again, answered by the frame that answered it before
    let request = session.begin_command(Command::Echo, b"hello").unwrap();
    assert_ne!(request, ECHO_COMMAND_FRAME.to_vec());
    assert_eq!(
        session.complete_command(Ok(ECHO_RESPONSE_FRAME.to_vec())),
        Err(HsmError::Integrity)
    );
    assert_eq!(session.current_state(), SessionState::Closed);
    assert_eq!(session.message_counter(), 2);
}

#[test]
fn second_command_before_the_response_closes_the_session() {
    let mut session = driven();
    session.begin_command(Command::Echo, b"hello").unwrap();
    assert_eq!(session.begin_command(Command::Echo, b"again"), Err(HsmError::InvalidState));
    assert_eq!(session.current_state(), SessionState::Closed);
    assert_eq!(session.message_counter(), 1);
    assert_eq!(
        session.complete_command(Ok(ECHO_RESPONSE_FRAME.to_vec())),
        Err(HsmError::InvalidState)
    );
}

#[test]
fn response_that_is_not_awaited_closes_the_session() {
    let mut session = driven();
    assert_eq!(
        session.complete_command(Ok(ECHO_RESPONSE_FRAME.to_vec())),
        Err(HsmError::InvalidState)
    );
    assert_eq!(session.current_state(), SessionState::Closed);
    assert_eq!(session.message_counter(), 1);

    let mut session = Session::new(Unused);
    assert_eq!(
        session.complete_command(Ok(ECHO_RESPONSE_FRAME.to_vec())),
        Err(HsmError::InvalidState)
    );
    assert_eq!(session.current_state(), SessionState::Closed);
}

#[test]
fn handshake_halves_out_of_turn() {
    // an answer without a request
    let mut session = Session::new(Unused);
    assert_eq!(
        session.complete_authentication(Ok(HANDSHAKE_ANSWER.to_vec())),
        Err(HsmError::InvalidState)
    );
    assert_eq!(session.current_state(), SessionState::Closed);

    // a second request
    let mut session = Session::new(Unused);
    session
        .begin_authentication_with(&credential(), &DEVICE_CHALLENGE, &HOST_CHALLENGE)
        .unwrap();
    assert_eq!(
        session.begin_authentication_with(&credential(), &DEVICE_CHALLENGE, &HOST_CHALLENGE),
        Err(HsmError::InvalidState)
    );
    assert_eq!(session.current_state(), SessionState::Closed);

    // a command during the handshake
    let mut session = Session::new(Unused);
    session.begin_authentication(&credential(), &DEVICE_CHALLENGE).unwrap();
    assert_eq!(session.current_state(), SessionState::Authenticating);
    assert_eq!(session.begin_command(Command::Echo, b"x"), Err(HsmError::InvalidState));
    assert_eq!(session.current_state(), SessionState::Closed);

    // an answer to a session that is established
    let mut session = driven();
    assert_eq!(
        session.complete_authentication(Ok(HANDSHAKE_ANSWER.to_vec())),
        Err(HsmError::InvalidState)
    );
    assert_eq!(session.current_state(), SessionState::Closed);
}

#[test]
fn failed_handshake_half_closes_the_session() {
    let mut session = Session::new(Unused);
    session
        .begin_authentication_with(&credential(), &DEVICE_CHALLENGE, &HOST_CHALLENGE)
        .unwrap();
    let mut answer = HANDSHAKE_ANSWER.to_vec();
    answer[11] ^= 1;
    assert_eq!(session.complete_authentication(Ok(answer)), Err(HsmError::Authentication));
    assert_eq!(session.current_state(), SessionState::Closed);

    let mut session = Session::new(Unused);
    session
        .begin_authentication_with(&credential(), &DEVICE_CHALLENGE, &HOST_CHALLENGE)
        .unwrap();
    assert_eq!(
        session.complete_authentication(Err(HsmError::Transport(TransportErrorKind::Timeout))),
        Err(HsmError::Transport(TransportErrorKind::Timeout))
    );
    assert_eq!(session.current_state(), SessionState::Closed);
}

#[test]
fn counter_stops_at_its_limit() {
    let id = SessionId::new(3).unwrap();
    let mut context = SessionContext::at_counter(id, keys(), COUNTER_LIMIT - 1);
    assert_eq!(COUNTER_LIMIT, 0xffff_ffff);
    assert!(!context.is_exhausted());
    assert_eq!(context.advance(), Ok(()));
    assert_eq!(context.message_counter(), COUNTER_LIMIT);
    assert!(context.is_exhausted());
    assert_eq!(context.advance(), Err(HsmError::CounterExhausted));
    assert_eq!(context.message_counter(), COUNTER_LIMIT);
    assert_eq!(context.session_id(), id);

    // a context at another counter value makes another frame
    let second = SessionContext::at_counter(id, keys(), 2);
    assert_ne!(second.seal_command(Command::Echo, b"hello"), Ok(ECHO_COMMAND_FRAME.to_vec()));
    let first = SessionContext::at_counter(id, keys(), 1);
    assert_eq!(first.seal_command(Command::Echo, b"hello"), Ok(ECHO_COMMAND_FRAME.to_vec()));
}
