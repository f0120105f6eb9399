use yubihsm_client::command::Command;
use yubihsm_client::envelope::{
    decode_command, decode_response, encode_command, encode_response, CommandMessage,
    ResponseMessage, MAX_PAYLOAD_SIZE,
};
use yubihsm_client::error::HsmError;
use yubihsm_client::response::ResponseCode;
use yubihsm_client::wire::{bytes_equal, push_bytes, push_u16, push_u32};

#[test]
fn command_frame_layout() {
    assert_eq!(
        encode_command(Command::Echo, b"abc"),
        Ok(vec![0x01, 0x00, 0x03, b'a', b'b', b'c'])
    );
    assert_eq!(encode_command(Command::ResetDevice, &[]), Ok(vec![0x08, 0x00, 0x00]));
    let long = vec![7u8; 0x1234];
    let frame = encode_command(Command::PutOpaque, &long).unwrap();
    assert_eq!(&frame[..3], &[0x42, 0x12, 0x34]);
    assert_eq!(&frame[3..], &long[..]);
}

#[test]
fn command_frame_round_trip() {
    for payload in [vec![], vec![1u8], vec![0u8; 300], vec![0xffu8; MAX_PAYLOAD_SIZE]] {
        let frame = encode_command(Command::SignEddsa, &payload).unwrap();
        assert_eq!(
            decode_command(&frame),
            Ok(CommandMessage { command: Command::SignEddsa, payload: payload.clone() })
        );
        let again = decode_command(&frame).unwrap();
        assert_eq!(encode_command(again.command, &again.payload), Ok(frame));
    }
}

#[test]
fn response_frame_round_trip() {
    for code in [
        ResponseCode::Success(Command::Echo),
        ResponseCode::Error,
        ResponseCode::Unknown,
        ResponseCode::Absent,
    ] {
        let frame = encode_response(code, &[9, 8, 7]).unwrap();
        assert_eq!(frame, vec![code.to_u8(), 0, 3, 9, 8, 7]);
        assert_eq!(
            decode_response(&frame),
            Ok(ResponseMessage { code, payload: vec![9, 8, 7] })
        );
    }
}

#[test]
fn oversized_payload_is_a_protocol_error() {
    let too_long = vec![0u8; MAX_PAYLOAD_SIZE + 1];
    assert_eq!(encode_command(Command::Echo, &too_long), Err(HsmError::Protocol));
    assert_eq!(encode_response(ResponseCode::Error, &too_long), Err(HsmError::Protocol));
}

#[test]
fn malformed_frames_are_protocol_errors() {
    // shorter than the header
    assert_eq!(decode_response(&[]), Err(HsmError::Protocol));
    assert_eq!(decode_response(&[0x81]), Err(HsmError::Protocol));
    assert_eq!(decode_response(&[0x81, 0]), Err(HsmError::Protocol));
    assert_eq!(decode_command(&[0x01, 0]), Err(HsmError::Protocol));
    // the declared length is not the length of what follows
    assert_eq!(decode_response(&[0x81, 0, 2, 1]), Err(HsmError::Protocol));
    assert_eq!(decode_response(&[0x81, 0, 0, 1]), Err(HsmError::Protocol));
    assert_eq!(decode_response(&[0x81, 1, 0, 1]), Err(HsmError::Protocol));
    assert_eq!(decode_command(&[0x01, 0, 2, 1]), Err(HsmError::Protocol));
    // a code that stands for nothing
    assert_eq!(decode_response(&[0x01, 0, 0]), Err(HsmError::Protocol));
    assert_eq!(decode_response(&[0x80, 0, 0]), Err(HsmError::Protocol));
    assert_eq!(decode_command(&[0x81, 0, 0]), Err(HsmError::Protocol));
    assert_eq!(decode_command(&[0x00, 0, 0]), Err(HsmError::Protocol));
    assert_eq!(decode_command(&[0x7f, 0, 0]), Err(HsmError::Protocol));
    // and the smallest frames that are accepted
    assert_eq!(
        decode_response(&[0x7f, 0, 0]),
        Ok(ResponseMessage { code: ResponseCode::Error, payload: vec![] })
    );
    assert_eq!(
        decode_command(&[0x01, 0, 0]),
        Ok(CommandMessage { command: Command::Echo, payload: vec![] })
    );
}

#[test]
fn big_endian_integers() {
    let mut out = vec![0xaa];
    push_u16(&mut out, 0x1234);
    push_u32(&mut out, 0x3456_789a);
    push_u16(&mut out, 0x00ff);
    push_bytes(&mut out, &[1, 2]);
    assert_eq!(out, vec![0xaa, 0x12, 0x34, 0x34, 0x56, 0x78, 0x9a, 0x00, 0xff, 1, 2]);
}

#[test]
fn bytes_equal_compares_contents() {
    assert!(bytes_equal(&[], &[]));
    assert!(bytes_equal(&[1, 2, 3], &[1, 2, 3]));
    assert!(!bytes_equal(&[1, 2, 3], &[1, 2, 4]));
    assert!(!bytes_equal(&[0, 2, 3], &[1, 2, 3]));
    assert!(!bytes_equal(&[1, 2, 3], &[1, 2]));
    assert!(!bytes_equal(&[0x80], &[0x00]));
}
