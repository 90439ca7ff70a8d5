//! Plain TCP socket code.

use vstd::prelude::*;
use crate::backend::Backend;
use crate::raw::connect_first;
use crate::raw::make_nul_hostname;
use crate::raw::nul_hostname_bytes;
use crate::raw::Socket;
use crate::raw::SocketDomain;
use crate::raw::SocketProtocol;
use crate::raw::SocketType;
use crate::text::str_bytes;
use vstd::utf8::encode_utf8;
use crate::Error;

verus! {

/// Represents a connection to a remote TCP/IP device.
#[derive(Debug)]
pub struct TcpSocket {
    socket: Socket,
}

impl TcpSocket {
    /// Create a new TCP socket.
    pub fn new<B: Backend>(backend: &mut B) -> (r: Result<TcpSocket, Error>)
        ensures
            r matches Err(e) ==> e matches Error::Nordic(op, code, _) && op@ == "new_socket"@
                && code < 0,
    {
        match Socket::new(backend, SocketDomain::Inet, SocketType::Stream, SocketProtocol::Tcp) {
            Ok(socket) => Ok(TcpSocket { socket }),
            Err(e) => Err(e),
        }
    }

    /// Resolve `hostname` and try to connect to each IPv4 address
    /// returned, in resolver order, stopping at the first success.  A
    /// hostname that does not fit the staging buffer with its terminator
    /// is refused as too long, exactly; a resolver that returns no
    /// address is reported as a name-resolution failure, distinctly from
    /// a failed connect attempt.
    pub fn connect<B: Backend>(&self, backend: &mut B, hostname: &str, port: u16) -> (r: Result<
        (),
        Error,
    >)
        ensures
            r == Err::<(), Error>(Error::HostnameTooLong) <==> encode_utf8(hostname@).len() + 1
                > 64,
            r matches Err(e) ==> e == Error::HostnameTooLong || (e matches Error::Nordic(
                _,
                _,
                _,
            )),
    {
        let host_bytes = str_bytes(hostname);
        let staged = match make_nul_hostname(host_bytes.as_slice()) {
            Ok(v) => v,
            Err(e) => {
                return Err(e);
            },
        };
        let (code, addrs) = backend.getaddrinfo_ipv4(nul_hostname_bytes(&staged), false);
        if addrs.len() == 0 {
            return Err(Error::Nordic("tcp_dns", code, backend.last_error()));
        }
        let result = connect_first(backend, self.socket.fd, &addrs, port);
        if result != 0 {
            Err(Error::Nordic("tcp_connect", result, backend.last_error()))
        } else {
            Ok(())
        }
    }

    /// Perform a single blocking write on the socket.
    pub fn write<B: Backend>(&self, backend: &mut B, buf: &[u8]) -> (r: Result<usize, Error>)
        ensures
            r matches Err(e) ==> e matches Error::Nordic(op, code, _) && op@ == "write"@ && code
                < 0,
    {
        self.socket.write(backend, buf)
    }

    /// Perform a non-blocking read; `Ok(None)` means the read would
    /// block.
    pub fn recv<B: Backend>(&self, backend: &mut B, max_len: usize) -> (r: Result<
        Option<Vec<u8>>,
        Error,
    >)
        ensures
            r matches Err(e) ==> e matches Error::Nordic(op, code, _) && op@ == "recv"@ && code
                < 0,
    {
        self.socket.recv(backend, max_len)
    }

    /// Perform a blocking read.
    pub fn recv_wait<B: Backend>(&self, backend: &mut B, max_len: usize) -> (r: Result<
        Vec<u8>,
        Error,
    >)
        ensures
            r matches Err(e) ==> e matches Error::Nordic(op, code, _) && op@ == "recv_wait"@
                && code < 0,
    {
        self.socket.recv_wait(backend, max_len)
    }

    /// Close the socket.
    pub fn close<B: Backend>(self, backend: &mut B) {
        self.socket.close(backend);
    }
}

impl crate::raw::Pollable for TcpSocket {
    /// Get the underlying socket descriptor for this socket.
    fn get_fd(&self) -> i32 {
        self.socket.fd
    }
}

} // verus!
