use std::collections::HashSet;

use yubihsm_client::audit::LogDigest;
use yubihsm_client::error::{HsmError, TransportErrorKind};
use yubihsm_client::serial_number::{SerialNumber, SERIAL_SIZE};

const ADDR_INVALID: HsmError = HsmError::Transport(TransportErrorKind::AddrInvalid);

#[test]
fn serial_number_parses_ten_digits() {
    let serial = SerialNumber::from_str("0123456789").unwrap();
    assert_eq!(serial.as_str(), "0123456789");
    assert_eq!(serial.as_bytes(), *b"0123456789");
    assert_eq!(serial.as_str().len(), SERIAL_SIZE);
    assert_eq!(SerialNumber::from_str("0000000000").unwrap().as_str(), "0000000000");
    assert_eq!(SerialNumber::from_str("9999999999").unwrap().as_str(), "9999999999");
}

#[test]
fn serial_number_of_another_length_is_refused() {
    for text in ["", "1", "012345678", "01234567890", "00000000000000000000"] {
        assert_eq!(SerialNumber::from_str(text), Err(ADDR_INVALID));
    }
}

#[test]
fn serial_number_with_another_character_is_refused() {
    for text in [
        "012345678a",
        "a123456789",
        "01234 6789",
        "0123456-89",
        "012345678/",
        "012345678:",
        "+123456789",
        "0x23456789",
        "01234567\u{660}",
        "\u{ff10}123456",
        "0123456\u{e9}9",
    ] {
        assert_eq!(SerialNumber::from_str(text), Err(ADDR_INVALID), "{:?}", text);
    }
}

#[test]
fn serial_numbers_compare_as_their_text() {
    let a = SerialNumber::from_str("0000000001").unwrap();
    let b = SerialNumber::from_str("0000000010").unwrap();
    let c = SerialNumber::from_str("0000000010").unwrap();
    assert!(a < b);
    assert_eq!(b, c);
    assert_ne!(a, b);
    let copy = a;
    assert_eq!(copy, a);
    let set: HashSet<SerialNumber> = [a, b, c].into_iter().collect();
    assert_eq!(set.len(), 2);
    assert_eq!(format!("{:?}", a.as_str()), "\"0000000001\"");
}

#[test]
fn digest_as_text() {
    let digest = LogDigest([
        0xf4, 0x64, 0x58, 0xad, 0x33, 0xf7, 0x78, 0xef, 0x13, 0x63, 0xc2, 0xa3, 0x9a, 0x25, 0x5f,
        0xa0,
    ]);
    assert_eq!(
        digest.to_text(),
        "LogDigest(f4:64:58:ad:33:f7:78:ef:13:63:c2:a3:9a:25:5f:a0)"
    );
    assert_eq!(
        LogDigest([0; 16]).to_text(),
        "LogDigest(00:00:00:00:00:00:00:00:00:00:00:00:00:00:00:00)"
    );
    assert_eq!(
        LogDigest([0x0f, 0xf0, 1, 0x10, 9, 0x0a, 0x99, 0xaa, 0xff, 0xfe, 0xef, 0x7f, 0x80, 0xc3, 0x3c, 0xb5])
            .to_text(),
        "LogDigest(0f:f0:01:10:09:0a:99:aa:ff:fe:ef:7f:80:c3:3c:b5)"
    );
}

#[test]
fn serial_number_through_the_std_traits() {
    let serial: SerialNumber = "0123456789".parse().unwrap();
    assert_eq!(serial, SerialNumber::from_str("0123456789").unwrap());
    let text: &str = serial.as_ref();
    assert_eq!(text, "0123456789");
    assert_eq!("012345678".parse::<SerialNumber>(), Err(ADDR_INVALID));
    assert_eq!("01234567x9".parse::<SerialNumber>(), Err(ADDR_INVALID));
}

#[test]
fn digest_as_bytes() {
    let digest = LogDigest([
        0xf4, 0x64, 0x58, 0xad, 0x33, 0xf7, 0x78, 0xef, 0x13, 0x63, 0xc2, 0xa3, 0x9a, 0x25, 0x5f,
        0xa0,
    ]);
    let bytes: &[u8] = digest.as_ref();
    assert_eq!(bytes, &digest.0[..]);
    assert_eq!(bytes.len(), 16);
    assert_eq!(bytes[0], 0xf4);
    assert_eq!(bytes[15], 0xa0);
}
