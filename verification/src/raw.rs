//! Generic socket handling: the typed handle over the firmware's socket
//! primitive, the marshalling of domains, types, protocols and socket
//! options into their wire codes, and polling.
//!
//! The numeric codes are the firmware's socket ABI (its `nrf_socket.h`);
//! each is stated here as a named constant and the marshalling functions
//! promise exactly which code each typed value becomes.

use vstd::prelude::*;
use crate::backend::Backend;
use crate::Error;

verus! {

/// Address family for sockets local to the modem library.
pub const NRF_AF_LOCAL: i32 = 1;

/// Address family for IPv4 sockets.
pub const NRF_AF_INET: i32 = 2;

/// Address family for talking to the LTE modem itself.
pub const NRF_AF_LTE: i32 = 102;

/// Stream socket type.
pub const NRF_SOCK_STREAM: i32 = 1;

/// Datagram socket type.
pub const NRF_SOCK_DGRAM: i32 = 2;

/// Protocol for the AT command channel.
pub const NRF_PROTO_AT: i32 = 513;

/// Protocol for the GNSS sub-system channel.
pub const NRF_PROTO_GNSS: i32 = 516;

/// Plain TCP.
pub const NRF_IPPROTO_TCP: i32 = 1;

/// Plain UDP.
pub const NRF_IPPROTO_UDP: i32 = 2;

/// TLS v1.2 over TCP.
pub const NRF_SPROTO_TLS1V2: i32 = 260;

/// TLS v1.3 over TCP.
pub const NRF_SPROTO_TLS1V3: i32 = 261;

/// DTLS v1.2 over UDP.
pub const NRF_SPROTO_DTLS1V2: i32 = 270;

/// Socket option level for the secure-socket options.
pub const NRF_SOL_SECURE: i32 = 282;

/// Socket option level for the GNSS options.
pub const NRF_SOL_GNSS: i32 = 516;

/// Secure-socket option: list of security tags to use.
pub const NRF_SO_SEC_TAG_LIST: i32 = 2;

/// Secure-socket option: TLS session caching.
pub const NRF_SO_SEC_SESSION_CACHE: i32 = 3;

/// Secure-socket option: peer verification level.
pub const NRF_SO_SEC_PEER_VERIFY: i32 = 4;

/// Secure-socket option: hostname to match the peer certificate against.
pub const NRF_SO_HOSTNAME: i32 = 5;

/// GNSS option: interval between fixes.
pub const NRF_SO_GNSS_FIX_INTERVAL: i32 = 1;

/// GNSS option: how long to try for a fix.
pub const NRF_SO_GNSS_FIX_RETRY: i32 = 2;

/// GNSS option: which NMEA sentences to produce.
pub const NRF_SO_GNSS_NMEA_MASK: i32 = 4;

/// GNSS option: start the receiver, deleting the masked non-volatile data.
pub const NRF_SO_GNSS_START: i32 = 7;

/// GNSS option: stop the receiver.
pub const NRF_SO_GNSS_STOP: i32 = 8;

/// The firmware's "try again" errno: a non-blocking read had no data yet.
pub const NRF_EAGAIN: i32 = 35;

/// Returned-event bit: readable.
pub const NRF_POLLIN: u32 = 1;

/// Returned-event bit: writable.
pub const NRF_POLLOUT: u32 = 2;

/// Returned-event bit: error state.
pub const NRF_POLLERR: u32 = 4;

/// Returned-event bit: hung up.
pub const NRF_POLLHUP: u32 = 8;

/// Returned-event bit: descriptor was not open.
pub const NRF_POLLNVAL: u32 = 16;

/// Largest number of sockets one poll call accepts.
pub const MAX_SOCKETS_POLL: usize = 8;

/// Represents a connection to something -- either the LTE stack itself, or
/// some remote device.
#[derive(Debug)]
pub struct Socket {
    /// The firmware's socket descriptor.
    pub(crate) fd: i32,
}

/// An IPv4 socket address in the firmware's wire layout: structure length,
/// address family, port in network byte order, and the host address.
#[derive(Debug, Clone, Copy, PartialEq, Eq)]
pub struct NrfSockAddrIn {
    /// Size of the address structure.
    pub sin_len: u8,
    /// Address family; always [`NRF_AF_INET`] here.
    pub sin_family: i32,
    /// Port, already in network byte order.
    pub sin_port: u16,
    /// IPv4 address as the resolver returned it.
    pub sin_addr: u32,
}

/// The domain for a socket.
#[derive(Debug, Copy, Clone, PartialEq, Eq)]
pub enum SocketDomain {
    /// Talking to the Nordic LTE modem.
    Lte,
    /// IPv4 sockets.
    Inet,
    /// Talking to the Nordic library itself (e.g. GNSS).
    Local,
}

/// The type of socket (stream, datagram, or unspecified).
#[derive(Debug, Copy, Clone, PartialEq, Eq)]
pub enum SocketType {
    /// No particular type; used with [`SocketDomain::Lte`].
    Unspecified,
    /// Used with [`SocketDomain::Inet`] for TCP and TLS streams.
    Stream,
    /// Used with UDP sockets, and for GNSS.
    Datagram,
}

/// The protocol used on a socket.
#[derive(Debug, Copy, Clone, PartialEq, Eq)]
pub enum SocketProtocol {
    /// AT command channel.
    At,
    /// Plain TCP stream socket.
    Tcp,
    /// Plain UDP datagram socket.
    Udp,
    /// TLS v1.2 over TCP.
    Tls1v2,
    /// TLS v1.3 over TCP.
    Tls1v3,
    /// DTLS v1.2 over UDP.
    Dtls1v2,
    /// Connection to the GNSS sub-system.
    Gnss,
}

/// Wire code of a socket domain.
pub open spec fn spec_domain_code(d: SocketDomain) -> i32 {
    match d {
        SocketDomain::Lte => NRF_AF_LTE,
        SocketDomain::Inet => NRF_AF_INET,
        SocketDomain::Local => NRF_AF_LOCAL,
    }
}

/// Wire code of a socket type.
pub open spec fn spec_type_code(t: SocketType) -> i32 {
    match t {
        SocketType::Unspecified => 0,
        SocketType::Stream => NRF_SOCK_STREAM,
        SocketType::Datagram => NRF_SOCK_DGRAM,
    }
}

/// Wire code of a socket protocol.
pub open spec fn spec_protocol_code(p: SocketProtocol) -> i32 {
    match p {
        SocketProtocol::At => NRF_PROTO_AT,
        SocketProtocol::Tcp => NRF_IPPROTO_TCP,
        SocketProtocol::Udp => NRF_IPPROTO_UDP,
        SocketProtocol::Tls1v2 => NRF_SPROTO_TLS1V2,
        SocketProtocol::Tls1v3 => NRF_SPROTO_TLS1V3,
        SocketProtocol::Dtls1v2 => NRF_SPROTO_DTLS1V2,
        SocketProtocol::Gnss => NRF_PROTO_GNSS,
    }
}

impl SocketDomain {
    /// The wire code the firmware expects for this domain.
    pub fn as_raw(self) -> (r: i32)
        ensures
            r == spec_domain_code(self),
    {
        match self {
            SocketDomain::Lte => NRF_AF_LTE,
            SocketDomain::Inet => NRF_AF_INET,
            SocketDomain::Local => NRF_AF_LOCAL,
        }
    }
}

impl SocketType {
    /// The wire code the firmware expects for this socket type.
    pub fn as_raw(self) -> (r: i32)
        ensures
            r == spec_type_code(self),
    {
        match self {
            SocketType::Unspecified => 0,
            SocketType::Stream => NRF_SOCK_STREAM,
            SocketType::Datagram => NRF_SOCK_DGRAM,
        }
    }
}

impl SocketProtocol {
    /// The wire code the firmware expects for this protocol.
    pub fn as_raw(self) -> (r: i32)
        ensures
            r == spec_protocol_code(self),
    {
        match self {
            SocketProtocol::At => NRF_PROTO_AT,
            SocketProtocol::Tcp => NRF_IPPROTO_TCP,
            SocketProtocol::Udp => NRF_IPPROTO_UDP,
            SocketProtocol::Tls1v2 => NRF_SPROTO_TLS1V2,
            SocketProtocol::Tls1v3 => NRF_SPROTO_TLS1V3,
            SocketProtocol::Dtls1v2 => NRF_SPROTO_DTLS1V2,
            SocketProtocol::Gnss => NRF_PROTO_GNSS,
        }
    }
}

/// The options that can be passed to a socket.  Each variant owns the
/// encoding rule for its own wire representation.
#[derive(Debug, Clone, PartialEq, Eq)]
pub enum SocketOption {
    /// Hostname for the TLS certificate to match: sent as its bytes, with
    /// no terminator.
    TlsHostName(Vec<u8>),
    /// Peer verification level: 0 none, 1 optional, 2 strict; sent as a
    /// 32-bit little-endian integer.
    TlsPeerVerify(u32),
    /// TLS session caching: 0 enabled, 1 disabled; sent as a 32-bit
    /// little-endian integer.
    TlsSessionCache(u32),
    /// The TLS security tags to use: a contiguous array of 32-bit
    /// little-endian tags.
    TlsTagList(Vec<u32>),
    /// Interval between fixes in seconds (0 = single-fix); 16-bit
    /// little-endian.
    GnssFixInterval(u16),
    /// How long the receiver tries for a fix, in seconds (0 = forever);
    /// 16-bit little-endian.
    GnssFixRetry(u16),
    /// Which NMEA sentences the GNSS system produces; 16-bit little-endian.
    GnssNmeaMask(u16),
    /// Start the GNSS system after deleting the masked non-volatile data;
    /// 32-bit little-endian.
    GnssStart(u32),
    /// Stop the GNSS system; carries no value.
    GnssStop,
}

/// Little-endian bytes of a 16-bit value.
pub open spec fn le16_bytes(v: u16) -> Seq<u8> {
    seq![(v & 0xff) as u8, ((v >> 8) & 0xff) as u8]
}

/// Little-endian bytes of a 32-bit value.
pub open spec fn le32_bytes(v: u32) -> Seq<u8> {
    seq![
        (v & 0xff) as u8,
        ((v >> 8) & 0xff) as u8,
        ((v >> 16) & 0xff) as u8,
        ((v >> 24) & 0xff) as u8,
    ]
}

/// The wire bytes of a tag list: each tag as 32 little-endian bits, in
/// order.
pub open spec fn taglist_bytes(tags: Seq<u32>) -> Seq<u8>
    decreases tags.len(),
{
    if tags.len() == 0 {
        Seq::empty()
    } else {
        taglist_bytes(tags.drop_last()) + le32_bytes(tags.last())
    }
}

/// The wire bytes of each socket option's value.
pub open spec fn spec_option_value(o: SocketOption) -> Seq<u8> {
    match o {
        SocketOption::TlsHostName(h) => h@,
        SocketOption::TlsPeerVerify(v) => le32_bytes(v),
        SocketOption::TlsSessionCache(v) => le32_bytes(v),
        SocketOption::TlsTagList(tags) => taglist_bytes(tags@),
        SocketOption::GnssFixInterval(v) => le16_bytes(v),
        SocketOption::GnssFixRetry(v) => le16_bytes(v),
        SocketOption::GnssNmeaMask(v) => le16_bytes(v),
        SocketOption::GnssStart(v) => le32_bytes(v),
        SocketOption::GnssStop => Seq::empty(),
    }
}

/// The option level of each socket option.
pub open spec fn spec_option_level(o: SocketOption) -> i32 {
    match o {
        SocketOption::TlsHostName(_) => NRF_SOL_SECURE,
        SocketOption::TlsPeerVerify(_) => NRF_SOL_SECURE,
        SocketOption::TlsSessionCache(_) => NRF_SOL_SECURE,
        SocketOption::TlsTagList(_) => NRF_SOL_SECURE,
        SocketOption::GnssFixInterval(_) => NRF_SOL_GNSS,
        SocketOption::GnssFixRetry(_) => NRF_SOL_GNSS,
        SocketOption::GnssNmeaMask(_) => NRF_SOL_GNSS,
        SocketOption::GnssStart(_) => NRF_SOL_GNSS,
        SocketOption::GnssStop => NRF_SOL_GNSS,
    }
}

/// The option name of each socket option.
pub open spec fn spec_option_name(o: SocketOption) -> i32 {
    match o {
        SocketOption::TlsHostName(_) => NRF_SO_HOSTNAME,
        SocketOption::TlsPeerVerify(_) => NRF_SO_SEC_PEER_VERIFY,
        SocketOption::TlsSessionCache(_) => NRF_SO_SEC_SESSION_CACHE,
        SocketOption::TlsTagList(_) => NRF_SO_SEC_TAG_LIST,
        SocketOption::GnssFixInterval(_) => NRF_SO_GNSS_FIX_INTERVAL,
        SocketOption::GnssFixRetry(_) => NRF_SO_GNSS_FIX_RETRY,
        SocketOption::GnssNmeaMask(_) => NRF_SO_GNSS_NMEA_MASK,
        SocketOption::GnssStart(_) => NRF_SO_GNSS_START,
        SocketOption::GnssStop => NRF_SO_GNSS_STOP,
    }
}

impl SocketOption {
    /// The option level sent to the firmware.
    pub fn get_level(&self) -> (r: i32)
        ensures
            r == spec_option_level(*self),
    {
        match self {
            SocketOption::TlsHostName(_) => NRF_SOL_SECURE,
            SocketOption::TlsPeerVerify(_) => NRF_SOL_SECURE,
            SocketOption::TlsSessionCache(_) => NRF_SOL_SECURE,
            SocketOption::TlsTagList(_) => NRF_SOL_SECURE,
            SocketOption::GnssFixInterval(_) => NRF_SOL_GNSS,
            SocketOption::GnssFixRetry(_) => NRF_SOL_GNSS,
            SocketOption::GnssNmeaMask(_) => NRF_SOL_GNSS,
            SocketOption::GnssStart(_) => NRF_SOL_GNSS,
            SocketOption::GnssStop => NRF_SOL_GNSS,
        }
    }

    /// The option name sent to the firmware.
    pub fn get_name(&self) -> (r: i32)
        ensures
            r == spec_option_name(*self),
    {
        match self {
            SocketOption::TlsHostName(_) => NRF_SO_HOSTNAME,
            SocketOption::TlsPeerVerify(_) => NRF_SO_SEC_PEER_VERIFY,
            SocketOption::TlsSessionCache(_) => NRF_SO_SEC_SESSION_CACHE,
            SocketOption::TlsTagList(_) => NRF_SO_SEC_TAG_LIST,
            SocketOption::GnssFixInterval(_) => NRF_SO_GNSS_FIX_INTERVAL,
            SocketOption::GnssFixRetry(_) => NRF_SO_GNSS_FIX_RETRY,
            SocketOption::GnssNmeaMask(_) => NRF_SO_GNSS_NMEA_MASK,
            SocketOption::GnssStart(_) => NRF_SO_GNSS_START,
            SocketOption::GnssStop => NRF_SO_GNSS_STOP,
        }
    }

    /// The wire bytes of this option's value.
    pub fn value_bytes(&self) -> (r: Vec<u8>)
        ensures
            r@ == spec_option_value(*self),
    {
        match self {
            SocketOption::TlsHostName(h) => {
                let mut out: Vec<u8> = Vec::new();
                let mut i: usize = 0;
                while i < h.len()
                    invariant
                        0 <= i <= h@.len(),
                        out@ == h@.take(i as int),
                    decreases h@.len() - i,
                {
                    out.push(h[i]);
                    proof {
                        assert(h@.take(i + 1) =~= h@.take(i as int).push(h@[i as int]));
                    }
                    i = i + 1;
                }
                proof {
                    assert(h@.take(h@.len() as int) =~= h@);
                }
                out
            },
            SocketOption::TlsPeerVerify(v) => push_le32(*v),
            SocketOption::TlsSessionCache(v) => push_le32(*v),
            SocketOption::TlsTagList(tags) => {
                let mut out: Vec<u8> = Vec::new();
                let mut i: usize = 0;
                while i < tags.len()
                    invariant
                        0 <= i <= tags@.len(),
                        out@ == taglist_bytes(tags@.take(i as int)),
                    decreases tags@.len() - i,
                {
                    let v = tags[i];
                    out.push((v & 0xff) as u8);
                    out.push(((v >> 8) & 0xff) as u8);
                    out.push(((v >> 16) & 0xff) as u8);
                    out.push(((v >> 24) & 0xff) as u8);
                    proof {
                        assert(tags@.take(i + 1).drop_last() =~= tags@.take(i as int));
                        assert(tags@.take(i + 1).last() == tags@[i as int]);
                        assert(out@ =~= taglist_bytes(tags@.take(i as int)) + le32_bytes(
                            tags@[i as int],
                        ));
                    }
                    i = i + 1;
                }
                proof {
                    assert(tags@.take(tags@.len() as int) =~= tags@);
                }
                out
            },
            SocketOption::GnssFixInterval(v) => push_le16(*v),
            SocketOption::GnssFixRetry(v) => push_le16(*v),
            SocketOption::GnssNmeaMask(v) => push_le16(*v),
            SocketOption::GnssStart(v) => push_le32(*v),
            SocketOption::GnssStop => Vec::new(),
        }
    }
}

/// The two little-endian bytes of a 16-bit value.
fn push_le16(v: u16) -> (r: Vec<u8>)
    ensures
        r@ == le16_bytes(v),
{
    let mut out: Vec<u8> = Vec::new();
    out.push((v & 0xff) as u8);
    out.push(((v >> 8) & 0xff) as u8);
    proof {
        assert(out@ =~= le16_bytes(v));
    }
    out
}

/// The four little-endian bytes of a 32-bit value.
fn push_le32(v: u32) -> (r: Vec<u8>)
    ensures
        r@ == le32_bytes(v),
{
    let mut out: Vec<u8> = Vec::new();
    out.push((v & 0xff) as u8);
    out.push(((v >> 8) & 0xff) as u8);
    out.push(((v >> 16) & 0xff) as u8);
    out.push(((v >> 24) & 0xff) as u8);
    proof {
        assert(out@ =~= le32_bytes(v));
    }
    out
}

/// Swap a 16-bit value into network byte order.
pub open spec fn spec_htons(v: u16) -> u16 {
    (((v & 0xff) << 8) | ((v >> 8) & 0xff)) as u16
}

/// Convert a port number to network byte order.
pub fn htons(input: u16) -> (r: u16)
    ensures
        r == spec_htons(input),
{
    let bottom = input & 0xff;
    let top = (input >> 8) & 0xff;
    proof {
        assert((input & 0xff) << 8 <= 0xff00 && ((input & 0xff) << 8 | ((input >> 8) & 0xff))
            <= 0xffff) by (bit_vector);
    }
    (bottom << 8) | top
}

/// How a non-blocking read's return code and last-error value are
/// classified: the "try again" errno means no data yet (`Ok(None)`), any
/// other negative code is a reported backend failure, and a non-negative
/// code delivers the bytes read.
pub open spec fn spec_classify_recv(code: i32, last_err: i32, data: Seq<u8>) -> Result<
    Option<Seq<u8>>,
    Error,
> {
    if code == -1 && last_err == NRF_EAGAIN {
        Ok(None)
    } else if code < 0 {
        Err(Error::Nordic("recv", code, last_err))
    } else {
        Ok(Some(data))
    }
}

/// Classify a non-blocking read outcome.  `Ok(None)` means "would block"
/// and must not be treated as end-of-stream.
pub fn classify_recv(code: i32, last_err: i32, data: Vec<u8>) -> (r: Result<
    Option<Vec<u8>>,
    Error,
>)
    ensures
        match r {
            Ok(Some(d)) => spec_classify_recv(code, last_err, data@) == Ok::<
                Option<Seq<u8>>,
                Error,
            >(Some(d@)),
            Ok(None) => spec_classify_recv(code, last_err, data@) == Ok::<
                Option<Seq<u8>>,
                Error,
            >(None),
            Err(e) => spec_classify_recv(code, last_err, data@) == Err::<
                Option<Seq<u8>>,
                Error,
            >(e),
        },
{
    if code == -1 && last_err == NRF_EAGAIN {
        Ok(None)
    } else if code < 0 {
        Err(Error::Nordic("recv", code, last_err))
    } else {
        Ok(Some(data))
    }
}

impl Socket {
    /// The firmware's descriptor behind this handle.
    pub closed spec fn spec_fd(self) -> i32 {
        self.fd
    }

    /// Open a socket of the given domain, type and protocol through the
    /// firmware; a negative return code becomes a backend failure carrying
    /// the code and the firmware's last error.
    pub fn new<B: Backend>(
        backend: &mut B,
        domain: SocketDomain,
        skt_type: SocketType,
        protocol: SocketProtocol,
    ) -> (r: Result<Socket, Error>)
        ensures
            match r {
                Ok(s) => s.spec_fd() >= 0,
                Err(e) => e matches Error::Nordic(op, code, _) && op@ == "new_socket"@ && code
                    < 0,
            },
    {
        let result = backend.socket(domain.as_raw(), skt_type.as_raw(), protocol.as_raw());
        if result < 0 {
            Err(Error::Nordic("new_socket", result, backend.last_error()))
        } else {
            Ok(Socket { fd: result })
        }
    }

    /// Marshal `option` into its level, name and wire value and hand it to
    /// the firmware's option-set primitive.
    pub fn set_option<B: Backend>(&self, backend: &mut B, option: &SocketOption) -> (r: Result<
        (),
        Error,
    >)
        ensures
            match r {
                Ok(()) => true,
                Err(e) => e matches Error::Nordic(op, code, _) && op@ == "set_option"@ && code
                    < 0,
            },
    {
        let value = option.value_bytes();
        let result = backend.setsockopt(
            self.fd,
            option.get_level(),
            option.get_name(),
            value.as_slice(),
        );
        if result < 0 {
            Err(Error::Nordic("set_option", result, backend.last_error()))
        } else {
            Ok(())
        }
    }

    /// Perform a single blocking write on the socket.  A partial write is
    /// reported through the returned count, not retried.
    pub fn write<B: Backend>(&self, backend: &mut B, buf: &[u8]) -> (r: Result<usize, Error>)
        ensures
            match r {
                Ok(_) => true,
                Err(e) => e matches Error::Nordic(op, code, _) && op@ == "write"@ && code < 0,
            },
    {
        let result = backend.write(self.fd, buf);
        if result < 0 {
            Err(Error::Nordic("write", result, backend.last_error()))
        } else {
            Ok(result as usize)
        }
    }

    /// Perform a non-blocking read of at most `max_len` bytes.  `Ok(None)`
    /// means the read would block (the firmware's "try again" errno) and
    /// must not be treated as end-of-stream.
    pub fn recv<B: Backend>(&self, backend: &mut B, max_len: usize) -> (r: Result<
        Option<Vec<u8>>,
        Error,
    >)
        ensures
            r matches Err(e) ==> e matches Error::Nordic(op, code, _) && op@ == "recv"@ && code
                < 0,
    {
        let (code, data) = backend.recv(self.fd, max_len, true);
        let err = backend.last_error();
        classify_recv(code, err, data)
    }

    /// Perform a blocking read of at most `max_len` bytes.
    pub fn recv_wait<B: Backend>(&self, backend: &mut B, max_len: usize) -> (r: Result<
        Vec<u8>,
        Error,
    >)
        ensures
            r matches Err(e) ==> e matches Error::Nordic(op, code, _) && op@ == "recv_wait"@
                && code < 0,
    {
        let (code, data) = backend.recv(self.fd, max_len, false);
        if code < 0 {
            Err(Error::Nordic("recv_wait", code, backend.last_error()))
        } else {
            Ok(data)
        }
    }

    /// Close the socket.  Taking the handle by value makes a second close
    /// of the same handle impossible.
    pub fn close<B: Backend>(self, backend: &mut B) {
        let _ = backend.close(self.fd);
    }
}

#[verifier::external_type_specification]
#[verifier::external_body]
#[verifier::reject_recursive_types(T)]
/// A fixed-capacity vector of the heapless crate, declared so that the
/// hostname staging buffer can be held and passed around in verified code.
pub struct ExHeaplessVec<T, const N: usize>(heapless::Vec<T, N>);

/// What the fixed-capacity hostname staging buffer holds.
pub uninterp spec fn hvec_bytes(v: heapless::Vec<u8, 64>) -> Seq<u8>;

/// Relies on heapless::Vec::new: a fresh fixed-capacity vector is empty.
#[verifier::external_body]
fn hvec_new() -> (r: heapless::Vec<u8, 64>)
    ensures
        hvec_bytes(r) == Seq::<u8>::empty(),
{
    heapless::Vec::new()
}

/// Relies on heapless::Vec::push: appends the item while the vector is
/// below its capacity, and hands the item back unchanged once it is full.
#[verifier::external_body]
fn hvec_push(v: &mut heapless::Vec<u8, 64>, b: u8) -> (r: Result<(), u8>)
    ensures
        r == (if hvec_bytes(*old(v)).len() < 64 {
            Ok::<(), u8>(())
        } else {
            Err::<(), u8>(b)
        }),
        hvec_bytes(*final(v)) == (if hvec_bytes(*old(v)).len() < 64 {
            hvec_bytes(*old(v)).push(b)
        } else {
            hvec_bytes(*old(v))
        }),
{
    v.push(b)
}

/// Relies on heapless::Vec::as_slice: a view of the stored elements.
#[verifier::external_body]
fn hvec_as_slice(v: &heapless::Vec<u8, 64>) -> (r: &[u8])
    ensures
        r@ == hvec_bytes(*v),
{
    v.as_slice()
}

/// Stage `hostname` as a null-terminated byte string in a fixed-capacity
/// buffer for the firmware's resolver; a hostname that does not fit with
/// its terminator is refused as too long.
pub(crate) fn make_nul_hostname(hostname: &[u8]) -> (r: Result<heapless::Vec<u8, 64>, Error>)
    ensures
        hostname@.len() + 1 <= 64 ==> (r matches Ok(v) && hvec_bytes(v) == hostname@.push(0u8)),
        hostname@.len() + 1 > 64 ==> r == Err::<heapless::Vec<u8, 64>, Error>(
            Error::HostnameTooLong,
        ),
{
    if hostname.len() > 63 {
        return Err(Error::HostnameTooLong);
    }
    let mut buf = hvec_new();
    let n = hostname.len();
    let mut i: usize = 0;
    while i < n
        invariant
            n == hostname@.len() <= 63,
            0 <= i <= n,
            hvec_bytes(buf) == hostname@.take(i as int),
        decreases n - i,
    {
        let pushed = hvec_push(&mut buf, hostname[i]);
        proof {
            assert(hostname@.take(i + 1) =~= hostname@.take(i as int).push(hostname@[i as int]));
        }
        match pushed {
            Ok(()) => {},
            Err(_) => {
                // Unreachable: the buffer holds at most 63 bytes here.
                assert(false);
            },
        }
        i = i + 1;
    }
    proof {
        assert(hostname@.take(n as int) =~= hostname@);
    }
    let pushed = hvec_push(&mut buf, 0);
    match pushed {
        Ok(()) => {},
        Err(_) => {
            assert(false);
        },
    }
    Ok(buf)
}

/// Hand the staged hostname bytes to a caller that needs a plain slice.
pub(crate) fn nul_hostname_bytes(v: &heapless::Vec<u8, 64>) -> (r: &[u8])
    ensures
        r@ == hvec_bytes(*v),
{
    hvec_as_slice(v)
}

/// Try to connect `fd` to each resolved address in turn, with the
/// caller's port substituted in, stopping at the first success; returns
/// the firmware's code for the last attempt (zero on success).
pub fn connect_first<B: Backend>(backend: &mut B, fd: i32, addrs: &Vec<u32>, port: u16) -> (r:
    i32)
    requires
        addrs@.len() > 0,
{
    let mut result: i32 = -1;
    let mut i: usize = 0;
    let n = addrs.len();
    while i < n
        invariant
            n == addrs@.len(),
            0 <= i <= n,
        decreases n - i,
    {
        let addr = NrfSockAddrIn {
            sin_len: 16,
            sin_family: NRF_AF_INET,
            sin_port: htons(port),
            sin_addr: addrs[i],
        };
        result = backend.connect(fd, &addr);
        if result == 0 {
            return 0;
        }
        i = i + 1;
    }
    result
}

/// Describes something we can poll on.
pub trait Pollable {
    /// Get the underlying socket descriptor for this socket.
    fn get_fd(&self) -> i32;
}

impl Pollable for Socket {
    fn get_fd(&self) -> i32 {
        self.fd
    }
}

/// The ways in which you can poll on a particular socket.
#[derive(Debug, Copy, Clone, PartialEq, Eq)]
pub enum PollFlags {
    /// Wake up if this socket is readable.
    Read,
    /// Wake up if this socket is writeable.
    Write,
    /// Wake up if this socket is readable or writeable.
    ReadOrWrite,
}

/// The requested-event bits of each way to poll.
pub open spec fn spec_poll_flag_bits(f: PollFlags) -> i16 {
    match f {
        PollFlags::Read => NRF_POLLIN as i16,
        PollFlags::Write => NRF_POLLOUT as i16,
        PollFlags::ReadOrWrite => (NRF_POLLIN + NRF_POLLOUT) as i16,
    }
}

impl PollFlags {
    /// The requested-event bits sent to the firmware.
    pub fn as_raw(self) -> (r: i16)
        ensures
            r == spec_poll_flag_bits(self),
    {
        match self {
            PollFlags::Read => 1,
            PollFlags::Write => 2,
            PollFlags::ReadOrWrite => 3,
        }
    }
}

/// The ways a socket can respond to a poll: the firmware's returned-event
/// bits.
#[derive(Debug, Copy, Clone, PartialEq, Eq)]
pub struct PollResult(pub u32);

impl PollResult {
    /// Is the polled socket now readable?
    pub fn is_readable(&self) -> (r: bool)
        ensures
            r == ((self.0 & NRF_POLLIN) != 0),
    {
        (self.0 & NRF_POLLIN) != 0
    }

    /// Is the polled socket now writeable?
    pub fn is_writable(&self) -> (r: bool)
        ensures
            r == ((self.0 & NRF_POLLOUT) != 0),
    {
        (self.0 & NRF_POLLOUT) != 0
    }

    /// Is the polled socket now in an error state?
    pub fn is_errored(&self) -> (r: bool)
        ensures
            r == ((self.0 & NRF_POLLERR) != 0),
    {
        (self.0 & NRF_POLLERR) != 0
    }

    /// Is the polled socket now closed?
    pub fn is_closed(&self) -> (r: bool)
        ensures
            r == ((self.0 & NRF_POLLHUP) != 0),
    {
        (self.0 & NRF_POLLHUP) != 0
    }

    /// Was the polled socket closed before we polled it?
    pub fn was_not_open(&self) -> (r: bool)
        ensures
            r == ((self.0 & NRF_POLLNVAL) != 0),
    {
        (self.0 & NRF_POLLNVAL) != 0
    }
}

impl Default for PollResult {
    /// No event bits set.
    fn default() -> (r: PollResult)
        ensures
            r.0 == 0,
    {
        PollResult(0)
    }
}

/// One descriptor with its requested-event bits, as handed to the
/// firmware's poll primitive.
#[derive(Debug, Copy, Clone, PartialEq, Eq)]
pub struct PollRequest {
    /// The descriptor to poll.
    pub fd: i32,
    /// The requested-event bits.
    pub events: i16,
}

/// Describes a socket you wish to poll, and the result of polling it.
#[derive(Debug, Copy, Clone)]
pub struct PollEntry {
    fd: i32,
    flags: PollFlags,
    result: PollResult,
}

impl PollEntry {
    /// Create a new `PollEntry` from a socket to poll and what to poll it
    /// for.
    pub fn new<P: Pollable>(socket: &P, flags: PollFlags) -> (r: PollEntry)
        ensures
            r.spec_flags() == flags,
            r.spec_result().0 == 0,
    {
        PollEntry { fd: socket.get_fd(), flags, result: PollResult(0) }
    }

    /// The polled descriptor.
    pub closed spec fn spec_fd(self) -> i32 {
        self.fd
    }

    /// The requested poll flags.
    pub closed spec fn spec_flags(self) -> PollFlags {
        self.flags
    }

    /// The recorded poll result.
    pub closed spec fn spec_result(self) -> PollResult {
        self.result
    }

    /// Get the result of polling this socket.
    pub fn result(&self) -> (r: PollResult)
        ensures
            r == self.spec_result(),
    {
        self.result
    }
}

/// Marshal the poll list for the firmware: one request per entry, in
/// order, carrying exactly the entry's descriptor and its requested-event
/// bits.
pub fn build_poll_requests(poll_list: &Vec<PollEntry>) -> (r: Vec<PollRequest>)
    ensures
        r@.len() == poll_list@.len(),
        forall|j: int|
            0 <= j < r@.len() ==> (#[trigger] r@[j]).fd == poll_list@[j].spec_fd()
                && r@[j].events == spec_poll_flag_bits(poll_list@[j].spec_flags()),
{
    let mut requests: Vec<PollRequest> = Vec::new();
    let mut i: usize = 0;
    let n = poll_list.len();
    while i < n
        invariant
            n == poll_list@.len(),
            0 <= i <= n,
            requests@.len() == i,
            forall|j: int|
                0 <= j < i ==> (#[trigger] requests@[j]).fd == poll_list@[j].spec_fd()
                    && requests@[j].events == spec_poll_flag_bits(poll_list@[j].spec_flags()),
        decreases n - i,
    {
        let entry = poll_list[i];
        requests.push(PollRequest { fd: entry.fd, events: entry.flags.as_raw() });
        i = i + 1;
    }
    requests
}

/// Record the firmware's returned-event bits into the poll list: entry `j`
/// gets `returned[j]` as its result, entries beyond the returned values
/// keep theirs, and every entry keeps its descriptor and flags.
pub fn record_poll_results(poll_list: &mut Vec<PollEntry>, returned: &Vec<u32>)
    ensures
        final(poll_list)@.len() == old(poll_list)@.len(),
        forall|j: int|
            0 <= j < final(poll_list)@.len() ==> {
                &&& (#[trigger] final(poll_list)@[j]).spec_fd() == old(poll_list)@[j].spec_fd()
                &&& final(poll_list)@[j].spec_flags() == old(poll_list)@[j].spec_flags()
                &&& final(poll_list)@[j].spec_result() == (if j < returned@.len() {
                    PollResult(returned@[j])
                } else {
                    old(poll_list)@[j].spec_result()
                })
            },
{
    let mut j: usize = 0;
    let n = poll_list.len();
    let m = returned.len();
    while j < n
        invariant
            n == poll_list@.len() == old(poll_list)@.len(),
            m == returned@.len(),
            0 <= j <= n,
            forall|k: int|
                j <= k < n ==> #[trigger] poll_list@[k] == old(poll_list)@[k],
            forall|k: int|
                0 <= k < j ==> {
                    &&& (#[trigger] poll_list@[k]).spec_fd() == old(poll_list)@[k].spec_fd()
                    &&& poll_list@[k].spec_flags() == old(poll_list)@[k].spec_flags()
                    &&& poll_list@[k].spec_result() == (if k < returned@.len() {
                        PollResult(returned@[k])
                    } else {
                        old(poll_list)@[k].spec_result()
                    })
                },
        decreases n - j,
    {
        if j < m {
            let bits = returned[j];
            let entry = poll_list[j];
            let updated = PollEntry { fd: entry.fd, flags: entry.flags, result: PollResult(bits) };
            poll_list.remove(j);
            poll_list.insert(j, updated);
        }
        j = j + 1;
    }
}

/// Poll on multiple sockets at once, waiting at most `timeout_ms`
/// milliseconds.  `Ok(0)` means the timeout passed with no event; a
/// positive count means events were recorded into the entries' results (as
/// [`record_poll_results`] states, from the firmware's returned bits for
/// the requests [`build_poll_requests`] marshalled).  More than
/// [`MAX_SOCKETS_POLL`] sockets are refused.  On a refusal, a backend
/// failure or a timeout, the entries are left exactly as they were; every
/// entry keeps its descriptor and flags in all cases.
pub fn poll<B: Backend>(
    backend: &mut B,
    poll_list: &mut Vec<PollEntry>,
    timeout_ms: u16,
) -> (r: Result<i32, Error>)
    ensures
        old(poll_list)@.len() > MAX_SOCKETS_POLL <==> r == Err::<i32, Error>(
            Error::TooManySockets,
        ),
        final(poll_list)@.len() == old(poll_list)@.len(),
        forall|j: int|
            0 <= j < final(poll_list)@.len() ==> (#[trigger] final(poll_list)@[j]).spec_fd()
                == old(poll_list)@[j].spec_fd() && final(poll_list)@[j].spec_flags() == old(
                poll_list,
            )@[j].spec_flags(),
        r matches Err(e) ==> final(poll_list)@ == old(poll_list)@ && (e == Error::TooManySockets
            || (e matches Error::Nordic(op, code, _) && op@ == "poll"@ && code < 0)),
        r == Ok::<i32, Error>(0) ==> final(poll_list)@ == old(poll_list)@,
        r matches Ok(n) ==> n >= 0,
{
    if poll_list.len() > MAX_SOCKETS_POLL {
        return Err(Error::TooManySockets);
    }
    let requests = build_poll_requests(poll_list);
    let (code, returned) = backend.poll(&requests, timeout_ms as i32);
    if code == 0 {
        Ok(0)
    } else if code < 0 {
        Err(Error::Nordic("poll", code, backend.last_error()))
    } else {
        record_poll_results(poll_list, &returned);
        Ok(code)
    }
}

} // verus!
