//! A client for the NetworkTables 2.0 protocol: the wire format, the table of
//! entries that a client keeps, and the rules by which a session advances.
//!
//! Nothing here touches a socket, a clock or a thread. Bytes that arrive are
//! handed in as slices, bytes that must leave are appended to a `Vec<u8>`, and
//! every decision in between is a function with a contract.

pub mod bytes;
pub mod client;
pub mod errors;
pub mod model;
pub mod protocol;
pub mod sequence_numbers;

pub use self::client::{Client, Get, SetValue, State};
pub use self::errors::{IoCause, IoCauseKind, NtError, NtErrorKind, NtResult};
pub use self::model::Listen;
pub use self::sequence_numbers::SequenceNumber;
