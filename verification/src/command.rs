//! The operations that a host can ask of the device, and the command field
//! of an audit log entry.

use vstd::prelude::*;

verus! {

/// An operation of the device. Each has a code byte of its own, below `0x80`.
#[derive(Clone, Copy, Debug, PartialEq, Eq, Structural)]
pub enum Command {
    /// Echoes the payload back (`0x01`).
    Echo,
    /// Opens a session and asks for the device's challenge (`0x03`).
    CreateSession,
    /// Completes the mutual authentication of a session (`0x04`).
    AuthenticateSession,
    /// Carries an encrypted command of an established session (`0x05`).
    SessionMessage,
    /// Reads the device's version and capabilities (`0x06`).
    DeviceInfo,
    /// Restores the factory state and restarts the device (`0x08`).
    ResetDevice,
    /// Closes the session (`0x40`).
    CloseSession,
    /// Reads how much storage is in use (`0x41`).
    StorageInfo,
    /// Stores an opaque object (`0x42`).
    PutOpaque,
    /// Reads an opaque object (`0x43`).
    GetOpaque,
    /// Stores an authentication key (`0x44`).
    PutAuthenticationKey,
    /// Stores an asymmetric key (`0x45`).
    PutAsymmetricKey,
    /// Generates an asymmetric key on the device (`0x46`).
    GenerateAsymmetricKey,
    /// Signs with RSA-PKCS#1 v1.5 (`0x47`).
    SignPkcs1,
    /// Lists the stored objects (`0x48`).
    ListObjects,
    /// Decrypts with RSA-PKCS#1 v1.5 (`0x49`).
    DecryptPkcs1,
    /// Exports an object under a wrap key (`0x4a`).
    ExportWrapped,
    /// Imports a wrapped object (`0x4b`).
    ImportWrapped,
    /// Stores a wrap key (`0x4c`).
    PutWrapKey,
    /// Reads the audit log (`0x4d`).
    GetLogEntries,
    /// Reads the attributes of an object (`0x4e`).
    GetObjectInfo,
    /// Sets a device option (`0x4f`).
    SetOption,
    /// Reads a device option (`0x50`).
    GetOption,
    /// Reads bytes of the device's random generator (`0x51`).
    GetPseudoRandom,
    /// Stores an HMAC key (`0x52`).
    PutHmacKey,
    /// Computes an HMAC (`0x53`).
    SignHmac,
    /// Reads the public part of an asymmetric key (`0x54`).
    GetPublicKey,
    /// Signs with RSA-PSS (`0x55`).
    SignPss,
    /// Signs with ECDSA (`0x56`).
    SignEcdsa,
    /// Derives an ECDH shared secret (`0x57`).
    DeriveEcdh,
    /// Deletes an object (`0x58`).
    DeleteObject,
    /// Decrypts with RSA-OAEP (`0x59`).
    DecryptOaep,
    /// Generates an HMAC key on the device (`0x5a`).
    GenerateHmacKey,
    /// Generates a wrap key on the device (`0x5b`).
    GenerateWrapKey,
    /// Verifies an HMAC (`0x5c`).
    VerifyHmac,
    /// Signs an SSH certificate (`0x5d`).
    SignSshCertificate,
    /// Stores a template (`0x5e`).
    PutTemplate,
    /// Reads a template (`0x5f`).
    GetTemplate,
    /// Decrypts a one-time password (`0x60`).
    DecryptOtp,
    /// Creates a one-time-password AEAD (`0x61`).
    CreateOtpAead,
    /// Creates a one-time-password AEAD from random data (`0x62`).
    RandomizeOtpAead,
    /// Moves a one-time-password AEAD to another key (`0x63`).
    RewrapOtpAead,
    /// Attests an asymmetric key (`0x64`).
    SignAttestationCertificate,
    /// Stores a one-time-password AEAD key (`0x65`).
    PutOtpAeadKey,
    /// Generates a one-time-password AEAD key on the device (`0x66`).
    GenerateOtpAeadKey,
    /// Marks the audit log as read up to an entry (`0x67`).
    SetLogIndex,
    /// Encrypts data under a wrap key (`0x68`).
    WrapData,
    /// Decrypts data under a wrap key (`0x69`).
    UnwrapData,
    /// Signs with EdDSA (`0x6a`).
    SignEddsa,
    /// Blinks the device's light (`0x6b`).
    BlinkDevice,
    /// Replaces an authentication key (`0x6c`).
    ChangeAuthenticationKey,
}

impl Command {
    /// The code byte of the operation.
    pub open spec fn byte(self) -> u8 {
        match self {
            Command::Echo => 0x01,
            Command::CreateSession => 0x03,
            Command::AuthenticateSession => 0x04,
            Command::SessionMessage => 0x05,
            Command::DeviceInfo => 0x06,
            Command::ResetDevice => 0x08,
            Command::CloseSession => 0x40,
            Command::StorageInfo => 0x41,
            Command::PutOpaque => 0x42,
            Command::GetOpaque => 0x43,
            Command::PutAuthenticationKey => 0x44,
            Command::PutAsymmetricKey => 0x45,
            Command::GenerateAsymmetricKey => 0x46,
            Command::SignPkcs1 => 0x47,
            Command::ListObjects => 0x48,
            Command::DecryptPkcs1 => 0x49,
            Command::ExportWrapped => 0x4a,
            Command::ImportWrapped => 0x4b,
            Command::PutWrapKey => 0x4c,
            Command::GetLogEntries => 0x4d,
            Command::GetObjectInfo => 0x4e,
            Command::SetOption => 0x4f,
            Command::GetOption => 0x50,
            Command::GetPseudoRandom => 0x51,
            Command::PutHmacKey => 0x52,
            Command::SignHmac => 0x53,
            Command::GetPublicKey => 0x54,
            Command::SignPss => 0x55,
            Command::SignEcdsa => 0x56,
            Command::DeriveEcdh => 0x57,
            Command::DeleteObject => 0x58,
            Command::DecryptOaep => 0x59,
            Command::GenerateHmacKey => 0x5a,
            Command::GenerateWrapKey => 0x5b,
            Command::VerifyHmac => 0x5c,
            Command::SignSshCertificate => 0x5d,
            Command::PutTemplate => 0x5e,
            Command::GetTemplate => 0x5f,
            Command::DecryptOtp => 0x60,
            Command::CreateOtpAead => 0x61,
            Command::RandomizeOtpAead => 0x62,
            Command::RewrapOtpAead => 0x63,
            Command::SignAttestationCertificate => 0x64,
            Command::PutOtpAeadKey => 0x65,
            Command::GenerateOtpAeadKey => 0x66,
            Command::SetLogIndex => 0x67,
            Command::WrapData => 0x68,
            Command::UnwrapData => 0x69,
            Command::SignEddsa => 0x6a,
            Command::BlinkDevice => 0x6b,
            Command::ChangeAuthenticationKey => 0x6c,
        }
    }

    /// The operation that has the code byte `b`, if there is one.
    pub open spec fn of_byte(b: u8) -> Option<Command> {
        match b {
            0x01u8 => Some(Command::Echo),
            0x03u8 => Some(Command::CreateSession),
            0x04u8 => Some(Command::AuthenticateSession),
            0x05u8 => Some(Command::SessionMessage),
            0x06u8 => Some(Command::DeviceInfo),
            0x08u8 => Some(Command::ResetDevice),
            0x40u8 => Some(Command::CloseSession),
            0x41u8 => Some(Command::StorageInfo),
            0x42u8 => Some(Command::PutOpaque),
            0x43u8 => Some(Command::GetOpaque),
            0x44u8 => Some(Command::PutAuthenticationKey),
            0x45u8 => Some(Command::PutAsymmetricKey),
            0x46u8 => Some(Command::GenerateAsymmetricKey),
            0x47u8 => Some(Command::SignPkcs1),
            0x48u8 => Some(Command::ListObjects),
            0x49u8 => Some(Command::DecryptPkcs1),
            0x4au8 => Some(Command::ExportWrapped),
            0x4bu8 => Some(Command::ImportWrapped),
            0x4cu8 => Some(Command::PutWrapKey),
            0x4du8 => Some(Command::GetLogEntries),
            0x4eu8 => Some(Command::GetObjectInfo),
            0x4fu8 => Some(Command::SetOption),
            0x50u8 => Some(Command::GetOption),
            0x51u8 => Some(Command::GetPseudoRandom),
            0x52u8 => Some(Command::PutHmacKey),
            0x53u8 => Some(Command::SignHmac),
            0x54u8 => Some(Command::GetPublicKey),
            0x55u8 => Some(Command::SignPss),
            0x56u8 => Some(Command::SignEcdsa),
            0x57u8 => Some(Command::DeriveEcdh),
            0x58u8 => Some(Command::DeleteObject),
            0x59u8 => Some(Command::DecryptOaep),
            0x5au8 => Some(Command::GenerateHmacKey),
            0x5bu8 => Some(Command::GenerateWrapKey),
            0x5cu8 => Some(Command::VerifyHmac),
            0x5du8 => Some(Command::SignSshCertificate),
            0x5eu8 => Some(Command::PutTemplate),
            0x5fu8 => Some(Command::GetTemplate),
            0x60u8 => Some(Command::DecryptOtp),
            0x61u8 => Some(Command::CreateOtpAead),
            0x62u8 => Some(Command::RandomizeOtpAead),
            0x63u8 => Some(Command::RewrapOtpAead),
            0x64u8 => Some(Command::SignAttestationCertificate),
            0x65u8 => Some(Command::PutOtpAeadKey),
            0x66u8 => Some(Command::GenerateOtpAeadKey),
            0x67u8 => Some(Command::SetLogIndex),
            0x68u8 => Some(Command::WrapData),
            0x69u8 => Some(Command::UnwrapData),
            0x6au8 => Some(Command::SignEddsa),
            0x6bu8 => Some(Command::BlinkDevice),
            0x6cu8 => Some(Command::ChangeAuthenticationKey),
            _ => None,
        }
    }

    /// The code byte of the operation.
    pub fn to_u8(self) -> (b: u8)
        ensures
            b == self.byte(),
            0 < b < 0x7f,
    {
        match self {
            Command::Echo => 0x01,
            Command::CreateSession => 0x03,
            Command::AuthenticateSession => 0x04,
            Command::SessionMessage => 0x05,
            Command::DeviceInfo => 0x06,
            Command::ResetDevice => 0x08,
            Command::CloseSession => 0x40,
            Command::StorageInfo => 0x41,
            Command::PutOpaque => 0x42,
            Command::GetOpaque => 0x43,
            Command::PutAuthenticationKey => 0x44,
            Command::PutAsymmetricKey => 0x45,
            Command::GenerateAsymmetricKey => 0x46,
            Command::SignPkcs1 => 0x47,
            Command::ListObjects => 0x48,
            Command::DecryptPkcs1 => 0x49,
            Command::ExportWrapped => 0x4a,
            Command::ImportWrapped => 0x4b,
            Command::PutWrapKey => 0x4c,
            Command::GetLogEntries => 0x4d,
            Command::GetObjectInfo => 0x4e,
            Command::SetOption => 0x4f,
            Command::GetOption => 0x50,
            Command::GetPseudoRandom => 0x51,
            Command::PutHmacKey => 0x52,
            Command::SignHmac => 0x53,
            Command::GetPublicKey => 0x54,
            Command::SignPss => 0x55,
            Command::SignEcdsa => 0x56,
            Command::DeriveEcdh => 0x57,
            Command::DeleteObject => 0x58,
            Command::DecryptOaep => 0x59,
            Command::GenerateHmacKey => 0x5a,
            Command::GenerateWrapKey => 0x5b,
            Command::VerifyHmac => 0x5c,
            Command::SignSshCertificate => 0x5d,
            Command::PutTemplate => 0x5e,
            Command::GetTemplate => 0x5f,
            Command::DecryptOtp => 0x60,
            Command::CreateOtpAead => 0x61,
            Command::RandomizeOtpAead => 0x62,
            Command::RewrapOtpAead => 0x63,
            Command::SignAttestationCertificate => 0x64,
            Command::PutOtpAeadKey => 0x65,
            Command::GenerateOtpAeadKey => 0x66,
            Command::SetLogIndex => 0x67,
            Command::WrapData => 0x68,
            Command::UnwrapData => 0x69,
            Command::SignEddsa => 0x6a,
            Command::BlinkDevice => 0x6b,
            Command::ChangeAuthenticationKey => 0x6c,
        }
    }

    /// Decodes a code byte. A byte that is the code of no operation is
    /// rejected.
    pub fn from_u8(b: u8) -> (r: Option<Command>)
        ensures
            r == Command::of_byte(b),
    {
        match b {
            0x01u8 => Some(Command::Echo),
            0x03u8 => Some(Command::CreateSession),
            0x04u8 => Some(Command::AuthenticateSession),
            0x05u8 => Some(Command::SessionMessage),
            0x06u8 => Some(Command::DeviceInfo),
            0x08u8 => Some(Command::ResetDevice),
            0x40u8 => Some(Command::CloseSession),
            0x41u8 => Some(Command::StorageInfo),
            0x42u8 => Some(Command::PutOpaque),
            0x43u8 => Some(Command::GetOpaque),
            0x44u8 => Some(Command::PutAuthenticationKey),
            0x45u8 => Some(Command::PutAsymmetricKey),
            0x46u8 => Some(Command::GenerateAsymmetricKey),
            0x47u8 => Some(Command::SignPkcs1),
            0x48u8 => Some(Command::ListObjects),
            0x49u8 => Some(Command::DecryptPkcs1),
            0x4au8 => Some(Command::ExportWrapped),
            0x4bu8 => Some(Command::ImportWrapped),
            0x4cu8 => Some(Command::PutWrapKey),
            0x4du8 => Some(Command::GetLogEntries),
            0x4eu8 => Some(Command::GetObjectInfo),
            0x4fu8 => Some(Command::SetOption),
            0x50u8 => Some(Command::GetOption),
            0x51u8 => Some(Command::GetPseudoRandom),
            0x52u8 => Some(Command::PutHmacKey),
            0x53u8 => Some(Command::SignHmac),
            0x54u8 => Some(Command::GetPublicKey),
            0x55u8 => Some(Command::SignPss),
            0x56u8 => Some(Command::SignEcdsa),
            0x57u8 => Some(Command::DeriveEcdh),
            0x58u8 => Some(Command::DeleteObject),
            0x59u8 => Some(Command::DecryptOaep),
            0x5au8 => Some(Command::GenerateHmacKey),
            0x5bu8 => Some(Command::GenerateWrapKey),
            0x5cu8 => Some(Command::VerifyHmac),
            0x5du8 => Some(Command::SignSshCertificate),
            0x5eu8 => Some(Command::PutTemplate),
            0x5fu8 => Some(Command::GetTemplate),
            0x60u8 => Some(Command::DecryptOtp),
            0x61u8 => Some(Command::CreateOtpAead),
            0x62u8 => Some(Command::RandomizeOtpAead),
            0x63u8 => Some(Command::RewrapOtpAead),
            0x64u8 => Some(Command::SignAttestationCertificate),
            0x65u8 => Some(Command::PutOtpAeadKey),
            0x66u8 => Some(Command::GenerateOtpAeadKey),
            0x67u8 => Some(Command::SetLogIndex),
            0x68u8 => Some(Command::WrapData),
            0x69u8 => Some(Command::UnwrapData),
            0x6au8 => Some(Command::SignEddsa),
            0x6bu8 => Some(Command::BlinkDevice),
            0x6cu8 => Some(Command::ChangeAuthenticationKey),
            _ => None,
        }
    }
}

/// Decoding the code byte of an operation gives the operation back, and a byte
/// decodes to an operation only if it is that operation's code byte.
pub proof fn lemma_command_round_trip(c: Command, b: u8)
    ensures
        Command::of_byte(c.byte()) == Some(c),
        0 < c.byte() < 0x7f,
        Command::of_byte(b) matches Some(d) ==> d.byte() == b,
{
}

/// The command field of an audit log entry: the operation that was logged, or
/// one of the two values that the device writes where no operation ran.
#[derive(Clone, Copy, Debug, PartialEq, Eq, Structural)]
pub enum CommandCode {
    /// No operation is known for the entry (`0x00`): the device logs its own
    /// start this way.
    Unknown,
    /// The operation that the entry records.
    Command(Command),
    /// The field was never written (`0xff`): the first line of a fresh log.
    Absent,
}

impl CommandCode {
    /// The byte that stands for the value on the wire.
    pub open spec fn byte(self) -> u8 {
        match self {
            CommandCode::Unknown => 0x00,
            CommandCode::Command(c) => c.byte(),
            CommandCode::Absent => 0xff,
        }
    }

    /// The value that the byte `b` stands for, if there is one.
    pub open spec fn of_byte(b: u8) -> Option<CommandCode> {
        if b == 0x00 {
            Some(CommandCode::Unknown)
        } else if b == 0xff {
            Some(CommandCode::Absent)
        } else {
            match Command::of_byte(b) {
                Some(c) => Some(CommandCode::Command(c)),
                None => None,
            }
        }
    }

    /// The byte that stands for the value on the wire.
    pub fn to_u8(self) -> (b: u8)
        ensures
            b == self.byte(),
    {
        match self {
            CommandCode::Unknown => 0x00,
            CommandCode::Command(c) => c.to_u8(),
            CommandCode::Absent => 0xff,
        }
    }

    /// Decodes the command field of a log entry. A byte that stands for
    /// nothing is rejected.
    pub fn from_u8(b: u8) -> (r: Option<CommandCode>)
        ensures
            r == CommandCode::of_byte(b),
    {
        if b == 0x00 {
            Some(CommandCode::Unknown)
        } else if b == 0xff {
            Some(CommandCode::Absent)
        } else {
            match Command::from_u8(b) {
                Some(c) => Some(CommandCode::Command(c)),
                None => None,
            }
        }
    }
}

/// Decoding the byte of a command field gives the field back, and a byte
/// decodes to a field only if it is that field's byte.
pub proof fn lemma_command_code_round_trip(c: CommandCode, b: u8)
    ensures
        CommandCode::of_byte(c.byte()) == Some(c),
        CommandCode::of_byte(b) matches Some(d) ==> d.byte() == b,
{
    if let CommandCode::Command(op) = c {
        lemma_command_round_trip(op, b);
    }
    if let Some(op) = Command::of_byte(b) {
        lemma_command_round_trip(op, b);
    }
}

} // verus!
