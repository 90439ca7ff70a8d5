//! Datagram Transport Layer Security (DTLS) socket code.

use vstd::prelude::*;
use crate::backend::Backend;
use crate::raw::connect_first;
use crate::raw::make_nul_hostname;
use crate::raw::nul_hostname_bytes;
use crate::raw::Socket;
use crate::raw::SocketDomain;
use crate::raw::SocketOption;
use crate::raw::SocketProtocol;
use crate::raw::SocketType;
use crate::text::str_bytes;
use vstd::utf8::encode_utf8;
use crate::Error;

verus! {

/// Represents a connection to a remote device using DTLS over UDP.
#[derive(Debug)]
pub struct DtlsSocket {
    socket: Socket,
}

/// Specify which version of the DTLS standard to use.
#[derive(Debug, Copy, Clone, PartialEq, Eq)]
pub enum Version {
    /// DTLS v1.2
    Dtls1v2,
}

/// Specify whether to verify the peer.
#[derive(Debug, Copy, Clone, PartialEq, Eq)]
pub enum PeerVerification {
    /// Check the peer's certificate is valid and abort if it isn't.
    Enabled,
    /// Check the peer's certificate is valid but don't abort if it isn't.
    Optional,
    /// Do not validate the peer's certificate.  This option leaves you
    /// vulnerable to man-in-the-middle attacks.
    Disabled,
}

/// The wire encoding of each peer-verification level.
pub open spec fn spec_peer_verification_value(p: PeerVerification) -> u32 {
    match p {
        PeerVerification::Enabled => 2,
        PeerVerification::Optional => 1,
        PeerVerification::Disabled => 0,
    }
}

impl PeerVerification {
    /// The integer the firmware expects for this verification level:
    /// 0 disabled, 1 optional, 2 enabled (strict).
    pub fn as_integer(self) -> (r: u32)
        ensures
            r == spec_peer_verification_value(self),
    {
        match self {
            PeerVerification::Enabled => 2,
            PeerVerification::Optional => 1,
            PeerVerification::Disabled => 0,
        }
    }
}

impl DtlsSocket {
    /// Create a new DTLS socket over UDP and configure it before any data
    /// is exchanged: the peer-verification level, session caching
    /// (enabled), and -- when `security_tags` is non-empty -- the tag
    /// list naming the pre-stored certificates to use.  The handle is
    /// closed again on every configuration failure.
    pub fn new<B: Backend>(
        backend: &mut B,
        peer_verify: PeerVerification,
        security_tags: &[u32],
        version: Version,
    ) -> (r: Result<DtlsSocket, Error>)
        ensures
            r matches Err(e) ==> e matches Error::Nordic(_, code, _) && code < 0,
    {
        let protocol = match version {
            Version::Dtls1v2 => SocketProtocol::Dtls1v2,
        };
        let socket = match Socket::new(backend, SocketDomain::Inet, SocketType::Datagram, protocol) {
            Ok(s) => s,
            Err(e) => {
                return Err(e);
            },
        };
        match socket.set_option(backend, &SocketOption::TlsPeerVerify(peer_verify.as_integer())) {
            Ok(()) => {},
            Err(e) => {
                socket.close(backend);
                return Err(e);
            },
        }
        match socket.set_option(backend, &SocketOption::TlsSessionCache(0)) {
            Ok(()) => {},
            Err(e) => {
                socket.close(backend);
                return Err(e);
            },
        }
        if security_tags.len() > 0 {
            let mut tags: Vec<u32> = Vec::new();
            let mut i: usize = 0;
            while i < security_tags.len()
                invariant
                    0 <= i <= security_tags@.len(),
                    tags@ == security_tags@.take(i as int),
                decreases security_tags@.len() - i,
            {
                tags.push(security_tags[i]);
                proof {
                    assert(security_tags@.take(i + 1) =~= security_tags@.take(i as int).push(
                        security_tags@[i as int],
                    ));
                }
                i = i + 1;
            }
            match socket.set_option(backend, &SocketOption::TlsTagList(tags)) {
                Ok(()) => {},
                Err(e) => {
                    socket.close(backend);
                    return Err(e);
                },
            }
        }
        Ok(DtlsSocket { socket })
    }

    /// Set the certificate hostname, resolve `hostname` asking for
    /// datagram results, and try to connect to each IPv4 address
    /// returned, in resolver order, stopping at the first success.  A
    /// hostname that does not fit the staging buffer with its terminator
    /// is refused as too long; a resolver that returns no address is
    /// reported as a name-resolution failure, distinctly from a failed
    /// connect attempt.
    pub fn connect<B: Backend>(&self, backend: &mut B, hostname: &str, port: u16) -> (r: Result<
        (),
        Error,
    >)
        ensures
            r == Err::<(), Error>(Error::HostnameTooLong) ==> encode_utf8(hostname@).len() + 1 > 64,
            encode_utf8(hostname@).len() + 1 > 64 ==> r == Err::<(), Error>(Error::HostnameTooLong)
                || (r matches Err(e) && e matches Error::Nordic(op, code, _) && op@
                == "set_option"@ && code < 0),
            r matches Err(e) ==> e == Error::HostnameTooLong || (e matches Error::Nordic(
                _,
                _,
                _,
            )),
    {
        let host_bytes = str_bytes(hostname);
        match self.socket.set_option(backend, &SocketOption::TlsHostName(host_bytes)) {
            Ok(()) => {},
            Err(e) => {
                return Err(e);
            },
        }
        let host_bytes = str_bytes(hostname);
        let staged = match make_nul_hostname(host_bytes.as_slice()) {
            Ok(v) => v,
            Err(e) => {
                return Err(e);
            },
        };
        let (code, addrs) = backend.getaddrinfo_ipv4(nul_hostname_bytes(&staged), true);
        if addrs.len() == 0 {
            return Err(Error::Nordic("dtls_dns", code, backend.last_error()));
        }
        let result = connect_first(backend, self.socket.fd, &addrs, port);
        if result != 0 {
            Err(Error::Nordic("dtls_connect", result, backend.last_error()))
        } else {
            Ok(())
        }
    }

    /// Perform a single blocking write on the socket.
    pub fn write<B: Backend>(&self, backend: &mut B, buf: &[u8]) -> (r: Result<usize, Error>)
        ensures
            r matches Err(e) ==> e matches Error::Nordic(op, code, _) && op@ == "write"@ && code
                < 0,
    {
        self.socket.write(backend, buf)
    }

    /// Perform a non-blocking read; `Ok(None)` means the read would
    /// block.
    pub fn recv<B: Backend>(&self, backend: &mut B, max_len: usize) -> (r: Result<
        Option<Vec<u8>>,
        Error,
    >)
        ensures
            r matches Err(e) ==> e matches Error::Nordic(op, code, _) && op@ == "recv"@ && code
                < 0,
    {
        self.socket.recv(backend, max_len)
    }

    /// Perform a blocking read.
    pub fn recv_wait<B: Backend>(&self, backend: &mut B, max_len: usize) -> (r: Result<
        Vec<u8>,
        Error,
    >)
        ensures
            r matches Err(e) ==> e matches Error::Nordic(op, code, _) && op@ == "recv_wait"@
                && code < 0,
    {
        self.socket.recv_wait(backend, max_len)
    }

    /// Close the socket.
    pub fn close<B: Backend>(self, backend: &mut B) {
        self.socket.close(backend);
    }
}

impl crate::raw::Pollable for DtlsSocket {
    /// Get the underlying socket descriptor for this socket.
    fn get_fd(&self) -> i32 {
        self.socket.fd
    }
}

} // verus!
