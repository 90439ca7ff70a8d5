//! Typed bridge between a host runtime and a cellular-modem coprocessor.
//!
//! The library supplies the pieces that the modem firmware needs from its
//! host and the protocol layer the host speaks over the firmware's
//! socket-like interface:
//!
//! * a first-fit region allocator with per-block size headers, one instance
//!   for private RAM and one for the memory shared with the coprocessor
//!   ([`heap::RegionAllocator`]);
//! * the interrupt-event bookkeeping for the IPC peripheral ([`ipc`]);
//! * typed sockets over the firmware's syscall surface ([`raw`], [`tcp`],
//!   [`tls`], [`dtls`], [`gnss`]);
//! * the line-oriented AT command engine ([`at`]) and modem helpers
//!   ([`modem`]).
//!
//! The syscall surface itself is outside the library: callers provide an
//! implementation of [`backend::Backend`] that forwards each method to the
//! firmware, and the library does every decision and every byte of
//! marshalling on top of it.

use vstd::prelude::*;

pub mod at;
pub mod backend;
pub mod dtls;
pub mod gnss;
pub mod heap;
pub mod ipc;
pub mod modem;
pub mod raw;
pub mod tcp;
pub mod text;
pub mod tls;

verus! {

/// Errors that can be returned in response to an AT command.
#[derive(Debug, Clone, PartialEq, Eq)]
pub enum AtError {
    /// Plain `ERROR` response
    Error,
    /// `+CME ERROR: xx` response (mobile-equipment error namespace)
    CmeError(i32),
    /// `+CMS ERROR: xx` response (message-service error namespace)
    CmsError(i32),
}

/// The set of error codes this library can produce.
#[derive(Debug, Clone, PartialEq, Eq)]
pub enum Error {
    /// An error was returned by the modem firmware: an operation name, the
    /// raw return code, and the firmware's last-error value.
    Nordic(&'static str, i32, i32),
    /// An AT error (`ERROR`, `+CME ERROR` or `+CMS ERROR`) was returned by
    /// the modem.
    AtError(AtError),
    /// Data returned by the modem was not in a format we could understand.
    BadDataFormat,
    /// Given hostname was too long for internal buffers to hold.
    HostnameTooLong,
    /// Unrecognised value from the AT interface.
    UnrecognisedValue,
    /// A socket write error occurred.
    WriteError,
    /// Too many sockets given to a single poll call.
    TooManySockets,
}

} // verus!
