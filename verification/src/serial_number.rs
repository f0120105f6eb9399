//! Serial numbers of devices.

use vstd::prelude::*;
use vstd::string::StringSliceAdditionalSpecFns;
use vstd::utf8::{
    is_leading_byte_width_1, partial_valid_utf8, partial_valid_utf8_extend_ascii_block, valid_utf8,
};
use crate::error::{HsmError, TransportErrorKind};

verus! {

/// Length of a serial number.
pub const SERIAL_SIZE: usize = 10;

/// Whether `b` is the text of a serial number: exactly ten ASCII decimal
/// digits.
pub open spec fn is_serial(b: Seq<u8>) -> bool {
    &&& b.len() == SERIAL_SIZE
    &&& forall|i: int| 0 <= i < b.len() ==> 0x30 <= #[trigger] b[i] <= 0x39
}

/// Serial number of a device: ten ASCII decimal digits.
#[derive(Copy, Clone, Debug, Eq, Hash, PartialEq, PartialOrd, Ord)]
pub struct SerialNumber([u8; SERIAL_SIZE]);

impl View for SerialNumber {
    type V = Seq<u8>;

    closed spec fn view(&self) -> Seq<u8> {
        self.0@
    }
}

/// The string slice that a slice of valid UTF-8 bytes holds:
/// `core::str::from_utf8`, which succeeds exactly on valid UTF-8 and then
/// gives a string slice over the same bytes.
#[verifier::external_body]
fn str_from_utf8(bytes: &[u8]) -> (s: &str)
    requires
        valid_utf8(bytes@),
    ensures
        s.spec_bytes() == bytes@,
{
    core::str::from_utf8(bytes).unwrap()
}

/// Bytes below `0x80` are valid UTF-8.
proof fn lemma_ascii_is_utf8(b: Seq<u8>)
    requires
        forall|i: int| 0 <= i < b.len() ==> #[trigger] b[i] < 0x80,
    ensures
        valid_utf8(b),
{
    assert forall|i: int| 0 <= i < b.len() implies #[trigger] is_leading_byte_width_1(b[i]) by {
        let x = b[i];
        assert(x < 0x80 ==> x & 0x80 == 0) by (bit_vector);
    }
    assert(b.subrange(0, 0) =~= Seq::<u8>::empty());
    assert(partial_valid_utf8(b, 0));
    partial_valid_utf8_extend_ascii_block(b, 0, b.len() as int);
    assert(b.subrange(0, b.len() as int) =~= b);
}

impl SerialNumber {
    /// Every serial number holds ten ASCII decimal digits.
    #[verifier::type_invariant]
    pub closed spec fn wf(self) -> bool {
        is_serial(self.0@)
    }

    /// Parses a serial number. A text of another length than ten bytes, or
    /// with a byte that is no ASCII decimal digit, is an invalid address.
    pub fn from_str(s: &str) -> (r: Result<SerialNumber, HsmError>)
        ensures
            match r {
                Ok(n) => is_serial(s.spec_bytes()) && n@ == s.spec_bytes(),
                Err(e) => e == HsmError::Transport(TransportErrorKind::AddrInvalid) && !is_serial(
                    s.spec_bytes(),
                ),
            },
    {
        let text = s.as_bytes();
        if text.len() != SERIAL_SIZE {
            return Err(HsmError::Transport(TransportErrorKind::AddrInvalid));
        }
        let mut bytes: [u8; SERIAL_SIZE] = [0u8; SERIAL_SIZE];
        let mut i: usize = 0;
        while i < SERIAL_SIZE
            invariant
                i <= SERIAL_SIZE,
                text@.len() == SERIAL_SIZE,
                text@ == s.spec_bytes(),
                forall|j: int| 0 <= j < i ==> bytes@[j] == text@[j],
                forall|j: int| 0 <= j < i ==> 0x30 <= #[trigger] text@[j] <= 0x39,
            decreases SERIAL_SIZE - i,
        {
            let c = text[i];
            if c < 0x30 || c > 0x39 {
                return Err(HsmError::Transport(TransportErrorKind::AddrInvalid));
            }
            bytes[i] = c;
            i += 1;
        }
        assert(bytes@ =~= text@);
        Ok(SerialNumber(bytes))
    }

    /// Borrow this serial as a string.
    pub fn as_str(&self) -> (r: &str)
        ensures
            r.spec_bytes() == self@,
            is_serial(self@),
    {
        proof {
            use_type_invariant(self);
            lemma_ascii_is_utf8(self.0@);
        }
        str_from_utf8(self.0.as_slice())
    }

    /// The ten digits of the serial number, as ASCII bytes.
    pub fn as_bytes(&self) -> (r: [u8; SERIAL_SIZE])
        ensures
            r@ == self@,
            is_serial(self@),
    {
        proof {
            use_type_invariant(self);
        }
        self.0
    }
}

impl AsRef<str> for SerialNumber {
    /// Borrow this serial as a string.
    fn as_ref(&self) -> (r: &str)
        ensures
            r.spec_bytes() == self@,
            is_serial(self@),
    {
        self.as_str()
    }
}

impl core::str::FromStr for SerialNumber {
    type Err = HsmError;

    /// Parses a serial number, as the function of the same name on the type
    /// does.
    fn from_str(s: &str) -> (r: Result<SerialNumber, HsmError>)
        ensures
            match r {
                Ok(n) => is_serial(s.spec_bytes()) && n@ == s.spec_bytes(),
                Err(e) => e == HsmError::Transport(TransportErrorKind::AddrInvalid) && !is_serial(
                    s.spec_bytes(),
                ),
            },
    {
        SerialNumber::from_str(s)
    }
}

} // verus!
