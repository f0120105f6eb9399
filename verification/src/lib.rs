//! Host-side client for a hardware security module that is reached over an
//! untrusted transport.
//!
//! The device keeps keys and works with them on the host's behalf. This
//! library is the layer that every such operation rides on: the codec of the
//! wire (`wire`, `command`, `response`), the envelope of a command and of a
//! response (`envelope`), the keys and the frames of an authenticated,
//! encrypted session (`channel`, `context`), the session itself with its
//! states and its counter (`session`, `reset`), and the digest chain of the
//! device's audit log (`audit`, `chain`).
//!
//! SHA-256, AES-128 and CMAC come from outside crates; everything that is
//! built on them is stated over their named results (`crypto`).

pub mod audit;
pub mod cbc_mode;
pub mod chain;
pub mod channel;
pub mod command;
pub mod context;
pub mod crypto;
pub mod envelope;
pub mod error;
pub mod padding;
pub mod reset;
pub mod response;
pub mod serial_number;
pub mod session;
pub mod wire;

pub use audit::{LogDigest, LogEntries, LogEntry};
pub use chain::{verify_chain, EntryVerdict, VerificationResult};
pub use channel::{Credential, SessionKeys};
pub use command::{Command, CommandCode};
pub use context::{SessionContext, SessionId};
pub use envelope::{decode_response, encode_command, CommandMessage, ResponseMessage};
pub use error::{HsmError, TransportErrorKind};
pub use reset::{reset, ResetResponse};
pub use response::ResponseCode;
pub use serial_number::SerialNumber;
pub use session::{Adapter, Session, SessionState};
