//! The firmware's syscall surface, as the library sees it.
//!
//! Everything the library asks of the modem firmware goes through
//! [`Backend`]: opening and closing sockets, reading, writing, socket
//! options, name resolution, connecting and polling.  The library never
//! performs these operations itself -- the hosting program implements the
//! trait over the real firmware interface (or over a test double) and the
//! library does all marshalling, classification and protocol logic on top.
//!
//! The trait promises nothing about what the firmware returns: every
//! function of the library that calls it states only what holds of its own
//! behaviour whatever values come back, and the exact decision logic lives
//! in verified functions that take those values as arguments.

use vstd::prelude::*;
use crate::raw::NrfSockAddrIn;
use crate::raw::PollRequest;

verus! {

/// The modem firmware's socket-like syscall surface.
///
/// Return codes follow the firmware's convention: a non-negative value is
/// success (for `socket` it is the new descriptor, for `write`/`recv` a
/// byte count), a negative value is failure, and [`Backend::last_error`]
/// reads the errno-style value the firmware recorded for the last failure.
pub trait Backend {
    /// Open a socket; returns the descriptor, or a negative code.
    fn socket(&mut self, domain: i32, skt_type: i32, protocol: i32) -> i32;

    /// Close a descriptor.
    fn close(&mut self, fd: i32) -> i32;

    /// Blocking write; returns the number of bytes taken, or a negative
    /// code.
    fn write(&mut self, fd: i32, data: &[u8]) -> i32;

    /// Read at most `max_len` bytes; non-blocking when `dont_wait`.
    /// Returns the firmware's return code and the bytes read.
    fn recv(&mut self, fd: i32, max_len: usize, dont_wait: bool) -> (i32, Vec<u8>);

    /// Set a socket option from its marshalled wire value.
    fn setsockopt(&mut self, fd: i32, level: i32, name: i32, value: &[u8]) -> i32;

    /// Read back a 16-bit socket option value.
    fn getsockopt_u16(&mut self, fd: i32, level: i32, name: i32) -> (i32, u16);

    /// Resolve `hostname` (a null-terminated byte string) to IPv4
    /// addresses, requesting datagram or stream results.  Returns the
    /// firmware's return code and the addresses found, in resolver order.
    fn getaddrinfo_ipv4(&mut self, hostname: &[u8], datagram: bool) -> (i32, Vec<u32>);

    /// Connect `fd` to `addr`; zero on success.
    fn connect(&mut self, fd: i32, addr: &NrfSockAddrIn) -> i32;

    /// Poll the given descriptors; returns the firmware's return code and
    /// the returned-event bits of each entry, in order.
    fn poll(&mut self, requests: &Vec<PollRequest>, timeout_ms: i32) -> (i32, Vec<u32>);

    /// The errno-style value the firmware recorded for the last failure.
    fn last_error(&self) -> i32;

    /// Block until the firmware signals an event; used between polls of a
    /// non-blocking read so the retry loop does not spin.
    fn wait_for_event(&mut self);
}

/// Return the last error recorded by the firmware.
pub fn get_last_error<B: Backend>(backend: &B) -> i32 {
    backend.last_error()
}

} // verus!
