//! Transport Layer Security (TLS) socket code, and certificate
//! provisioning over the AT command channel.

use vstd::prelude::*;
use crate::at::AtSocket;
use crate::backend::Backend;
use crate::raw::connect_first;
use crate::raw::make_nul_hostname;
use crate::raw::nul_hostname_bytes;
use crate::raw::Socket;
use crate::raw::SocketDomain;
use crate::raw::SocketOption;
use crate::raw::SocketProtocol;
use crate::raw::SocketType;
use crate::text::dec_digits;
use crate::text::push_decimal;
use crate::text::str_bytes;
use vstd::utf8::encode_utf8;
use crate::AtError;
use crate::Error;

verus! {

/// Represents a connection to a remote TCP/IP device using TLS.
#[derive(Debug)]
pub struct TlsSocket {
    socket: Socket,
}

/// Specify which version of the TLS standard to use.
#[derive(Debug, Copy, Clone, PartialEq, Eq)]
pub enum Version {
    /// TLS v1.2
    Tls1v2,
    /// TLS v1.3
    Tls1v3,
}

/// Specify whether to verify the peer.
#[derive(Debug, Copy, Clone, PartialEq, Eq)]
pub enum PeerVerification {
    /// Check the peer's certificate is valid and abort if it isn't.
    Enabled,
    /// Check the peer's certificate is valid but don't abort if it isn't.
    Optional,
    /// Do not validate the peer's certificate.  This option leaves you
    /// vulnerable to man-in-the-middle attacks.
    Disabled,
}

/// The wire encoding of each peer-verification level.
pub open spec fn spec_peer_verification_value(p: PeerVerification) -> u32 {
    match p {
        PeerVerification::Enabled => 2,
        PeerVerification::Optional => 1,
        PeerVerification::Disabled => 0,
    }
}

impl PeerVerification {
    /// The integer the firmware expects for this verification level:
    /// 0 disabled, 1 optional, 2 enabled (strict).
    pub fn as_integer(self) -> (r: u32)
        ensures
            r == spec_peer_verification_value(self),
    {
        match self {
            PeerVerification::Enabled => 2,
            PeerVerification::Optional => 1,
            PeerVerification::Disabled => 0,
        }
    }
}

impl TlsSocket {
    /// Create a new TLS socket over IPv4 and configure it before any data
    /// is exchanged: the peer-verification level, session caching
    /// (enabled; 0 means enabled on the wire), and -- when `security_tags`
    /// is non-empty -- the tag list naming the pre-stored certificates to
    /// use.  The handle is closed again on every configuration failure.
    pub fn new<B: Backend>(
        backend: &mut B,
        peer_verify: PeerVerification,
        security_tags: &[u32],
        version: Version,
    ) -> (r: Result<TlsSocket, Error>)
        ensures
            r matches Err(e) ==> e matches Error::Nordic(_, code, _) && code < 0,
    {
        let protocol = match version {
            Version::Tls1v2 => SocketProtocol::Tls1v2,
            Version::Tls1v3 => SocketProtocol::Tls1v3,
        };
        let socket = match Socket::new(backend, SocketDomain::Inet, SocketType::Stream, protocol) {
            Ok(s) => s,
            Err(e) => {
                return Err(e);
            },
        };
        match socket.set_option(backend, &SocketOption::TlsPeerVerify(peer_verify.as_integer())) {
            Ok(()) => {},
            Err(e) => {
                socket.close(backend);
                return Err(e);
            },
        }
        match socket.set_option(backend, &SocketOption::TlsSessionCache(0)) {
            Ok(()) => {},
            Err(e) => {
                socket.close(backend);
                return Err(e);
            },
        }
        if security_tags.len() > 0 {
            let mut tags: Vec<u32> = Vec::new();
            let mut i: usize = 0;
            while i < security_tags.len()
                invariant
                    0 <= i <= security_tags@.len(),
                    tags@ == security_tags@.take(i as int),
                decreases security_tags@.len() - i,
            {
                tags.push(security_tags[i]);
                proof {
                    assert(security_tags@.take(i + 1) =~= security_tags@.take(i as int).push(
                        security_tags@[i as int],
                    ));
                }
                i = i + 1;
            }
            match socket.set_option(backend, &SocketOption::TlsTagList(tags)) {
                Ok(()) => {},
                Err(e) => {
                    socket.close(backend);
                    return Err(e);
                },
            }
        }
        Ok(TlsSocket { socket })
    }

    /// Set the certificate hostname, resolve `hostname` and try to
    /// connect to each IPv4 address returned, in resolver order, stopping
    /// at the first success.  A hostname that does not fit the staging
    /// buffer with its terminator is refused as too long; a resolver that
    /// returns no address is reported as a name-resolution failure,
    /// distinctly from a failed connect attempt.
    pub fn connect<B: Backend>(&self, backend: &mut B, hostname: &str, port: u16) -> (r: Result<
        (),
        Error,
    >)
        ensures
            r == Err::<(), Error>(Error::HostnameTooLong) ==> encode_utf8(hostname@).len() + 1 > 64,
            encode_utf8(hostname@).len() + 1 > 64 ==> r == Err::<(), Error>(Error::HostnameTooLong)
                || (r matches Err(e) && e matches Error::Nordic(op, code, _) && op@
                == "set_option"@ && code < 0),
            r matches Err(e) ==> e == Error::HostnameTooLong || (e matches Error::Nordic(
                _,
                _,
                _,
            )),
    {
        let host_bytes = str_bytes(hostname);
        match self.socket.set_option(backend, &SocketOption::TlsHostName(host_bytes)) {
            Ok(()) => {},
            Err(e) => {
                return Err(e);
            },
        }
        let host_bytes = str_bytes(hostname);
        let staged = match make_nul_hostname(host_bytes.as_slice()) {
            Ok(v) => v,
            Err(e) => {
                return Err(e);
            },
        };
        let (code, addrs) = backend.getaddrinfo_ipv4(nul_hostname_bytes(&staged), false);
        if addrs.len() == 0 {
            return Err(Error::Nordic("tls_dns", code, backend.last_error()));
        }
        let result = connect_first(backend, self.socket.fd, &addrs, port);
        if result != 0 {
            Err(Error::Nordic("tls_connect", result, backend.last_error()))
        } else {
            Ok(())
        }
    }

    /// Perform a single blocking write on the socket.
    pub fn write<B: Backend>(&self, backend: &mut B, buf: &[u8]) -> (r: Result<usize, Error>)
        ensures
            r matches Err(e) ==> e matches Error::Nordic(op, code, _) && op@ == "write"@ && code
                < 0,
    {
        self.socket.write(backend, buf)
    }

    /// Perform a non-blocking read; `Ok(None)` means the read would
    /// block.
    pub fn recv<B: Backend>(&self, backend: &mut B, max_len: usize) -> (r: Result<
        Option<Vec<u8>>,
        Error,
    >)
        ensures
            r matches Err(e) ==> e matches Error::Nordic(op, code, _) && op@ == "recv"@ && code
                < 0,
    {
        self.socket.recv(backend, max_len)
    }

    /// Perform a blocking read.
    pub fn recv_wait<B: Backend>(&self, backend: &mut B, max_len: usize) -> (r: Result<
        Vec<u8>,
        Error,
    >)
        ensures
            r matches Err(e) ==> e matches Error::Nordic(op, code, _) && op@ == "recv_wait"@
                && code < 0,
    {
        self.socket.recv_wait(backend, max_len)
    }

    /// Close the socket.
    pub fn close<B: Backend>(self, backend: &mut B) {
        self.socket.close(backend);
    }
}

impl crate::raw::Pollable for TlsSocket {
    /// Get the underlying socket descriptor for this socket.
    fn get_fd(&self) -> i32 {
        self.socket.fd
    }
}

/// The kinds of credential the modem stores under a security tag.
#[derive(Debug, Copy, Clone, PartialEq, Eq)]
pub enum CredentialType {
    /// An X509 server-side certificate chain, PEM format.
    RootCA,
    /// An X509 client certificate, PEM format.
    ClientCert,
    /// The private key for the client certificate, PEM format.
    ClientPrivate,
}

/// The numeric code of each credential kind in the `AT%CMNG` command.
pub open spec fn spec_credential_code(k: CredentialType) -> u32 {
    match k {
        CredentialType::RootCA => 0,
        CredentialType::ClientCert => 1,
        CredentialType::ClientPrivate => 2,
    }
}

impl CredentialType {
    /// The numeric code used on the AT command line.
    pub fn code(self) -> (r: u32)
        ensures
            r == spec_credential_code(self),
    {
        match self {
            CredentialType::RootCA => 0,
            CredentialType::ClientCert => 1,
            CredentialType::ClientPrivate => 2,
        }
    }
}

/// The operations of the `AT%CMNG` credential-management command.
#[derive(Debug, Copy, Clone, PartialEq, Eq)]
pub enum CredentialOpcode {
    /// Store a credential.
    Write,
    /// Delete a credential.
    Delete,
}

/// The numeric code of each credential-management operation.
pub open spec fn spec_opcode_code(o: CredentialOpcode) -> u32 {
    match o {
        CredentialOpcode::Write => 0,
        CredentialOpcode::Delete => 3,
    }
}

impl CredentialOpcode {
    /// The numeric code used on the AT command line.
    pub fn code(self) -> (r: u32)
        ensures
            r == spec_opcode_code(self),
    {
        match self {
            CredentialOpcode::Write => 0,
            CredentialOpcode::Delete => 3,
        }
    }
}

/// The command line `AT%CMNG=op,tag,kind`, without a terminator.
pub open spec fn spec_cmng_head(op: u32, tag: u32, kind: u32) -> Seq<u8> {
    encode_utf8("AT%CMNG="@) + dec_digits(op as int) + seq![44u8] + dec_digits(tag as int)
        + seq![44u8] + dec_digits(kind as int)
}

/// The command line that deletes the credential of kind `kind` under
/// `tag`: `AT%CMNG=3,tag,kind` followed by carriage return and line feed.
pub open spec fn spec_cmng_delete(tag: u32, kind: u32) -> Seq<u8> {
    spec_cmng_head(3, tag, kind) + seq![13u8, 10u8]
}

/// The command line that stores `blob` as the credential of kind `kind`
/// under `tag`: `AT%CMNG=0,tag,kind,"blob"` followed by carriage return
/// and line feed.
pub open spec fn spec_cmng_write(tag: u32, kind: u32, blob: Seq<char>) -> Seq<u8> {
    spec_cmng_head(0, tag, kind) + seq![44u8, 34u8] + encode_utf8(blob) + seq![34u8, 13u8, 10u8]
}

/// Build the command head `AT%CMNG=op,tag,kind`.
fn cmng_head(op: CredentialOpcode, tag: u32, kind: CredentialType) -> (r: Vec<u8>)
    ensures
        r@ == spec_cmng_head(spec_opcode_code(op), tag, spec_credential_code(kind)),
{
    let mut out = str_bytes("AT%CMNG=");
    push_decimal(&mut out, op.code());
    out.push(44);
    push_decimal(&mut out, tag);
    out.push(44);
    push_decimal(&mut out, kind.code());
    proof {
        assert(out@ =~= spec_cmng_head(spec_opcode_code(op), tag, spec_credential_code(kind)));
    }
    out
}

/// Build the credential-deletion command.
pub fn cmng_delete_command(tag: u32, kind: CredentialType) -> (r: Vec<u8>)
    ensures
        r@ == spec_cmng_delete(tag, spec_credential_code(kind)),
{
    let mut out = cmng_head(CredentialOpcode::Delete, tag, kind);
    out.push(13);
    out.push(10);
    proof {
        assert(out@ =~= spec_cmng_delete(tag, spec_credential_code(kind)));
    }
    out
}

/// Build the credential-store command.
pub fn cmng_write_command(tag: u32, kind: CredentialType, blob: &str) -> (r: Vec<u8>)
    ensures
        r@ == spec_cmng_write(tag, spec_credential_code(kind), blob@),
{
    let mut out = cmng_head(CredentialOpcode::Write, tag, kind);
    out.push(44);
    out.push(34);
    let blob_bytes = str_bytes(blob);
    let mut i: usize = 0;
    let ghost mid = out@;
    let n = blob_bytes.len();
    while i < n
        invariant
            n == blob_bytes@.len(),
            0 <= i <= n,
            out@ == mid + blob_bytes@.take(i as int),
        decreases n - i,
    {
        out.push(blob_bytes[i]);
        proof {
            assert(mid + blob_bytes@.take(i + 1) =~= (mid + blob_bytes@.take(i as int)).push(
                blob_bytes@[i as int],
            ));
        }
        i = i + 1;
    }
    proof {
        assert(blob_bytes@.take(n as int) =~= blob_bytes@);
    }
    out.push(34);
    out.push(13);
    out.push(10);
    proof {
        assert(out@ =~= spec_cmng_write(tag, spec_credential_code(kind), blob@));
    }
    out
}

/// Delete any stored credential of kind `kind` under `tag` (ignoring the
/// modem's not-found error) and store `blob` in its place when one is
/// supplied.
fn provision_one<B: Backend>(
    backend: &mut B,
    at_socket: &mut AtSocket,
    tag: u32,
    kind: CredentialType,
    blob: Option<&str>,
) -> (r: Result<(), Error>)
    ensures
        r matches Err(e) ==> (e matches Error::AtError(_)) || (e matches Error::Nordic(_, _, _)),
{
    let delete = cmng_delete_command(tag, kind);
    match at_socket.send_command_bytes(backend, delete.as_slice()) {
        Ok(()) => {},
        Err(e) => {
            return Err(e);
        },
    }
    let mut delete_lines: Vec<Vec<u8>> = Vec::new();
    match at_socket.poll_response(backend, &mut delete_lines) {
        Ok(()) => {},
        Err(Error::AtError(AtError::CmeError(code))) => {
            if code != 513 {
                // Any mobile-equipment error other than "not found" is
                // reported; a missing credential is fine to delete.
                return Err(Error::AtError(AtError::CmeError(code)));
            }
        },
        Err(e) => {
            return Err(e);
        },
    }
    match blob {
        Some(text) => {
            let write = cmng_write_command(tag, kind, text);
            match at_socket.send_command_bytes(backend, write.as_slice()) {
                Ok(()) => {},
                Err(e) => {
                    return Err(e);
                },
            }
            let mut write_lines: Vec<Vec<u8>> = Vec::new();
            match at_socket.poll_response(backend, &mut write_lines) {
                Ok(()) => Ok(()),
                Err(e) => Err(e),
            }
        },
        None => Ok(()),
    }
}

/// Store TLS certificates in the modem's non-volatile storage for use
/// with a later TLS connection.
///
/// Any existing credential under `tag` of each kind is deleted first
/// (a not-found answer is ignored); then each supplied PEM blob is
/// written: the certificate-authority chain, the client certificate, and
/// the client private key.  An absent blob leaves its slot deleted.
pub fn provision_certificates<B: Backend>(
    backend: &mut B,
    tag: u32,
    ca_chain: Option<&str>,
    public_cert: Option<&str>,
    key: Option<&str>,
) -> (r: Result<(), Error>)
    ensures
        r matches Err(e) ==> (e matches Error::AtError(_)) || (e matches Error::Nordic(_, _, _)),
{
    let mut at_socket = match AtSocket::new(backend) {
        Ok(s) => s,
        Err(e) => {
            return Err(e);
        },
    };
    match provision_one(backend, &mut at_socket, tag, CredentialType::RootCA, ca_chain) {
        Ok(()) => {},
        Err(e) => {
            at_socket.close(backend);
            return Err(e);
        },
    }
    match provision_one(backend, &mut at_socket, tag, CredentialType::ClientCert, public_cert) {
        Ok(()) => {},
        Err(e) => {
            at_socket.close(backend);
            return Err(e);
        },
    }
    let result = provision_one(backend, &mut at_socket, tag, CredentialType::ClientPrivate, key);
    at_socket.close(backend);
    result
}

} // verus!
