//! End-to-end tests of the socket flows over a scripted backend: the AT
//! command channel, the modem helpers, connecting, GNSS reads and polling.

use nrfxlib::at::send_at_command;
use nrfxlib::at::AtSocket;
use nrfxlib::backend::get_last_error;
use nrfxlib::backend::Backend;
use nrfxlib::dtls::DtlsSocket;
use nrfxlib::gnss::GnssSocket;
use nrfxlib::modem::get_system_mode;
use nrfxlib::modem::set_system_mode;
use nrfxlib::modem::wait_for_lte;
use nrfxlib::modem::SystemMode;
use nrfxlib::raw::poll;
use nrfxlib::raw::NrfSockAddrIn;
use nrfxlib::raw::PollEntry;
use nrfxlib::raw::PollFlags;
use nrfxlib::raw::PollRequest;
use nrfxlib::raw::Socket;
use nrfxlib::tcp::TcpSocket;
use nrfxlib::tls::provision_certificates;
use nrfxlib::tls::TlsSocket;
use nrfxlib::AtError;
use nrfxlib::Error;

/// One scripted answer to a read.
struct RecvStep {
    code: i32,
    data: Vec<u8>,
    errno: i32,
}

/// A scripted stand-in for the firmware's syscall surface.
struct FakeBackend {
    next_fd: i32,
    socket_result: Option<i32>,
    recv_steps: Vec<RecvStep>,
    recv_at: usize,
    written: Vec<Vec<u8>>,
    options: Vec<(i32, i32, Vec<u8>)>,
    closed: Vec<i32>,
    errno: i32,
    gai_code: i32,
    gai_addrs: Vec<u32>,
    gai_hostnames: Vec<Vec<u8>>,
    connect_results: Vec<i32>,
    connect_at: usize,
    connect_attempts: Vec<(i32, u32, u16)>,
    getsockopt_answer: (i32, u16),
    poll_answer: (i32, Vec<u32>),
    waits: usize,
}

impl FakeBackend {
    fn new() -> FakeBackend {
        FakeBackend {
            next_fd: 3,
            socket_result: None,
            recv_steps: Vec::new(),
            recv_at: 0,
            written: Vec::new(),
            options: Vec::new(),
            closed: Vec::new(),
            errno: 0,
            gai_code: 0,
            gai_addrs: Vec::new(),
            gai_hostnames: Vec::new(),
            connect_results: Vec::new(),
            connect_at: 0,
            connect_attempts: Vec::new(),
            getsockopt_answer: (0, 0),
            poll_answer: (0, Vec::new()),
            waits: 0,
        }
    }

    fn script_recv(&mut self, code: i32, data: &[u8], errno: i32) {
        self.recv_steps.push(RecvStep {
            code,
            data: data.to_vec(),
            errno,
        });
    }
}

impl Backend for FakeBackend {
    fn socket(&mut self, _domain: i32, _skt_type: i32, _protocol: i32) -> i32 {
        match self.socket_result {
            Some(code) => code,
            None => {
                let fd = self.next_fd;
                self.next_fd += 1;
                fd
            }
        }
    }

    fn close(&mut self, fd: i32) -> i32 {
        self.closed.push(fd);
        0
    }

    fn write(&mut self, _fd: i32, data: &[u8]) -> i32 {
        self.written.push(data.to_vec());
        data.len() as i32
    }

    fn recv(&mut self, _fd: i32, _max_len: usize, _dont_wait: bool) -> (i32, Vec<u8>) {
        if self.recv_at >= self.recv_steps.len() {
            panic!("backend script ran out of reads");
        }
        let step = &self.recv_steps[self.recv_at];
        self.recv_at += 1;
        self.errno = step.errno;
        (step.code, step.data.clone())
    }

    fn setsockopt(&mut self, _fd: i32, level: i32, name: i32, value: &[u8]) -> i32 {
        self.options.push((level, name, value.to_vec()));
        0
    }

    fn getsockopt_u16(&mut self, _fd: i32, _level: i32, _name: i32) -> (i32, u16) {
        self.getsockopt_answer
    }

    fn getaddrinfo_ipv4(&mut self, hostname: &[u8], _datagram: bool) -> (i32, Vec<u32>) {
        self.gai_hostnames.push(hostname.to_vec());
        (self.gai_code, self.gai_addrs.clone())
    }

    fn connect(&mut self, fd: i32, addr: &NrfSockAddrIn) -> i32 {
        self.connect_attempts.push((fd, addr.sin_addr, addr.sin_port));
        let code = if self.connect_at < self.connect_results.len() {
            self.connect_results[self.connect_at]
        } else {
            -1
        };
        self.connect_at += 1;
        code
    }

    fn poll(&mut self, _requests: &Vec<PollRequest>, _timeout_ms: i32) -> (i32, Vec<u32>) {
        (self.poll_answer.0, self.poll_answer.1.clone())
    }

    fn last_error(&self) -> i32 {
        self.errno
    }

    fn wait_for_event(&mut self) {
        self.waits += 1;
        if self.waits > 100 {
            panic!("poll loop spun without data");
        }
    }
}

#[test]
fn send_at_command_collects_indications_until_ok() {
    let mut b = FakeBackend::new();
    b.script_recv(1, b"+CGMI: Nordic\r\n", 0);
    b.script_recv(-1, b"", 35); // would block: wait and poll again
    b.script_recv(1, b"OK\r\n", 0);
    let lines = send_at_command(&mut b, "AT+CGMI").expect("success");
    assert_eq!(lines, vec![b"+CGMI: Nordic".to_vec()]);
    assert_eq!(b.written, vec![b"AT+CGMI".to_vec()]);
    assert_eq!(b.closed.len(), 1);
    assert!(b.waits >= 1);
}

#[test]
fn send_at_command_reports_terminal_failure() {
    let mut b = FakeBackend::new();
    b.script_recv(1, b"+CME ERROR: 3\r\n", 0);
    let r = send_at_command(&mut b, "AT+BAD");
    assert_eq!(r, Err(Error::AtError(AtError::CmeError(3))));
    assert_eq!(b.closed.len(), 1);
}

#[test]
fn split_terminal_across_blocking_gaps_still_succeeds() {
    // The success line arrives one fragment at a time, with a would-block
    // answer in between; the channel reassembles it.
    let mut b = FakeBackend::new();
    b.script_recv(1, b"O", 0);
    b.script_recv(-1, b"", 35);
    b.script_recv(1, b"K\n", 0);
    let lines = send_at_command(&mut b, "AT").expect("success");
    assert_eq!(lines.len(), 0);
}

#[test]
fn at_socket_open_failure_carries_backend_code() {
    let mut b = FakeBackend::new();
    b.socket_result = Some(-7);
    b.errno = 12;
    match AtSocket::new(&mut b) {
        Err(Error::Nordic(op, code, errno)) => {
            assert_eq!(op, "new_socket");
            assert_eq!(code, -7);
            assert_eq!(errno, 12);
        }
        other => panic!("expected a backend failure, got {:?}", other),
    }
}

#[test]
fn recv_error_surfaces_from_poll_response() {
    let mut b = FakeBackend::new();
    b.script_recv(-9, b"", 113);
    let mut skt = AtSocket::new(&mut b).expect("socket");
    let mut lines: Vec<Vec<u8>> = Vec::new();
    let r = skt.poll_response(&mut b, &mut lines);
    assert_eq!(r, Err(Error::Nordic("recv", -9, 113)));
}

#[test]
fn indications_survive_a_terminal_failure() {
    let mut b = FakeBackend::new();
    b.script_recv(1, b"+CGMI: Nordic\r\nERROR\r\n", 0);
    let mut skt = AtSocket::new(&mut b).expect("socket");
    skt.send_command(&mut b, "AT+CGMI").expect("sent");
    let mut lines: Vec<Vec<u8>> = Vec::new();
    let r = skt.poll_response(&mut b, &mut lines);
    assert_eq!(r, Err(Error::AtError(AtError::Error)));
    assert_eq!(lines, vec![b"+CGMI: Nordic".to_vec()]);
}

#[test]
fn wait_for_lte_subscribes_then_waits_for_registration() {
    let mut b = FakeBackend::new();
    b.script_recv(1, b"+CEREG: 2\r\n", 0);
    b.script_recv(1, b"+CEREG: 5,\"76C1\"\r\n", 0);
    wait_for_lte(&mut b).expect("registered");
    assert_eq!(b.written, vec![b"AT+CEREG=2".to_vec()]);
    assert_eq!(b.closed.len(), 1);
}

#[test]
fn set_system_mode_sends_the_flag_command() {
    let mut b = FakeBackend::new();
    b.script_recv(1, b"OK\r\n", 0);
    set_system_mode(&mut b, SystemMode::LteMAndGnss).expect("success");
    assert_eq!(b.written, vec![b"AT%XSYSTEMMODE=1,0,1,0".to_vec()]);
}

#[test]
fn get_system_mode_parses_the_answer() {
    let mut b = FakeBackend::new();
    b.script_recv(1, b"%XSYSTEMMODE: 0,1,1,0\r\nOK\r\n", 0);
    assert_eq!(get_system_mode(&mut b), Ok(SystemMode::NbIotAndGnss));
}

#[test]
fn get_system_mode_rejects_unknown_answers() {
    let mut b = FakeBackend::new();
    b.script_recv(1, b"%XSYSTEMMODE: 9,9,9,9\r\nOK\r\n", 0);
    assert_eq!(get_system_mode(&mut b), Err(Error::UnrecognisedValue));
}

#[test]
fn tcp_connect_tries_candidates_in_order() {
    let mut b = FakeBackend::new();
    b.gai_addrs = vec![0x0A00_0001, 0x0A00_0002, 0x0A00_0003];
    b.connect_results = vec![-1, -1, 0];
    let skt = TcpSocket::new(&mut b).expect("socket");
    skt.connect(&mut b, "example.com", 8080).expect("connected");
    assert_eq!(b.gai_hostnames, vec![b"example.com\0".to_vec()]);
    let port_be: u16 = ((8080u16 & 0xff) << 8) | (8080u16 >> 8);
    assert_eq!(
        b.connect_attempts,
        vec![
            (3, 0x0A00_0001, port_be),
            (3, 0x0A00_0002, port_be),
            (3, 0x0A00_0003, port_be),
        ]
    );
}

#[test]
fn tcp_connect_exhausted_candidates_report_last_error() {
    let mut b = FakeBackend::new();
    b.gai_addrs = vec![1, 2];
    b.connect_results = vec![-4, -5];
    b.errno = 111;
    let skt = TcpSocket::new(&mut b).expect("socket");
    let r = skt.connect(&mut b, "example.com", 80);
    assert_eq!(r, Err(Error::Nordic("tcp_connect", -5, 111)));
}

#[test]
fn tcp_connect_empty_resolution_is_a_dns_error() {
    let mut b = FakeBackend::new();
    b.gai_code = -2;
    b.errno = 60;
    let skt = TcpSocket::new(&mut b).expect("socket");
    let r = skt.connect(&mut b, "nosuch.example", 80);
    assert_eq!(r, Err(Error::Nordic("tcp_dns", -2, 60)));
}

#[test]
fn overlong_hostname_is_refused() {
    let mut b = FakeBackend::new();
    let skt = TcpSocket::new(&mut b).expect("socket");
    let long = "a".repeat(64);
    let r = skt.connect(&mut b, &long, 80);
    assert_eq!(r, Err(Error::HostnameTooLong));
    // 63 bytes plus the terminator still fits.
    b.gai_addrs = vec![7];
    b.connect_results = vec![0];
    let fits = "a".repeat(63);
    skt.connect(&mut b, &fits, 80).expect("connected");
    assert_eq!(b.gai_hostnames.len(), 1);
    assert_eq!(b.gai_hostnames[0].len(), 64);
}

#[test]
fn tls_socket_applies_its_options_in_order() {
    let mut b = FakeBackend::new();
    let _skt = TlsSocket::new(
        &mut b,
        nrfxlib::tls::PeerVerification::Enabled,
        &[0x0102_0304, 5],
        nrfxlib::tls::Version::Tls1v2,
    )
    .expect("socket");
    assert_eq!(
        b.options,
        vec![
            (282, 4, vec![2, 0, 0, 0]),
            (282, 3, vec![0, 0, 0, 0]),
            (282, 2, vec![4, 3, 2, 1, 5, 0, 0, 0]),
        ]
    );
}

#[test]
fn tls_socket_without_tags_skips_the_tag_list() {
    let mut b = FakeBackend::new();
    let _skt = TlsSocket::new(&mut b, nrfxlib::tls::PeerVerification::Disabled, &[], nrfxlib::tls::Version::Tls1v3)
        .expect("socket");
    assert_eq!(b.options.len(), 2);
    assert_eq!(b.options[0], (282, 4, vec![0, 0, 0, 0]));
}

#[test]
fn tls_connect_sets_the_certificate_hostname_first() {
    let mut b = FakeBackend::new();
    let skt = TlsSocket::new(&mut b, nrfxlib::tls::PeerVerification::Enabled, &[], nrfxlib::tls::Version::Tls1v2)
        .expect("socket");
    b.options.clear();
    b.gai_addrs = vec![9];
    b.connect_results = vec![0];
    skt.connect(&mut b, "secure.example", 443).expect("connected");
    assert_eq!(b.options, vec![(282, 5, b"secure.example".to_vec())]);
    assert_eq!(b.gai_hostnames, vec![b"secure.example\0".to_vec()]);
}

#[test]
fn dtls_socket_configures_and_connects() {
    let mut b = FakeBackend::new();
    let skt = DtlsSocket::new(&mut b, nrfxlib::dtls::PeerVerification::Optional, &[42], nrfxlib::dtls::Version::Dtls1v2)
        .expect("socket");
    assert_eq!(
        b.options,
        vec![
            (282, 4, vec![1, 0, 0, 0]),
            (282, 3, vec![0, 0, 0, 0]),
            (282, 2, vec![42, 0, 0, 0]),
        ]
    );
    b.gai_addrs = vec![0x7F00_0001];
    b.connect_results = vec![0];
    skt.connect(&mut b, "udp.example", 5684).expect("connected");
}

#[test]
fn provision_certificates_deletes_then_writes() {
    let mut b = FakeBackend::new();
    // Delete of the CA chain answers "not found", which is ignored.
    b.script_recv(1, b"+CME ERROR: 513\r\n", 0);
    // Write of the CA chain succeeds.
    b.script_recv(1, b"OK\r\n", 0);
    // Deletes of the absent client certificate and key succeed.
    b.script_recv(1, b"OK\r\n", 0);
    b.script_recv(1, b"OK\r\n", 0);
    provision_certificates(&mut b, 16842753, Some("PEM CERT"), None, None)
        .expect("provisioned");
    assert_eq!(
        b.written,
        vec![
            b"AT%CMNG=3,16842753,0\r\n".to_vec(),
            b"AT%CMNG=0,16842753,0,\"PEM CERT\"\r\n".to_vec(),
            b"AT%CMNG=3,16842753,1\r\n".to_vec(),
            b"AT%CMNG=3,16842753,2\r\n".to_vec(),
        ]
    );
    assert_eq!(b.closed.len(), 1);
}

#[test]
fn provision_certificates_propagates_real_errors() {
    let mut b = FakeBackend::new();
    b.script_recv(1, b"+CME ERROR: 514\r\n", 0);
    let r = provision_certificates(&mut b, 1, Some("X"), None, None);
    assert_eq!(r, Err(Error::AtError(AtError::CmeError(514))));
    assert_eq!(b.closed.len(), 1);
}

#[test]
fn gnss_socket_configures_and_reads_frames() {
    let mut b = FakeBackend::new();
    let skt = GnssSocket::new(&mut b).expect("socket");
    skt.set_fix_interval(&mut b, 1).expect("ok");
    skt.set_fix_retry(&mut b, 60).expect("ok");
    skt.set_nmea_mask(&mut b, nrfxlib::gnss::NmeaMask::new().set(nrfxlib::gnss::NmeaField::GpsFixData))
        .expect("ok");
    skt.start(&mut b, nrfxlib::gnss::DeleteMask::new()).expect("ok");
    assert_eq!(
        b.options,
        vec![
            (516, 1, vec![1, 0]),
            (516, 2, vec![60, 0]),
            (516, 4, vec![1, 0]),
            (516, 7, vec![0, 0, 0, 0]),
        ]
    );
    // A position frame with a valid fix.
    let mut frame = vec![0u8; 216];
    frame[0] = 1;
    frame[68] = 1;
    b.script_recv(216, &frame, 0);
    match skt.get_fix(&mut b) {
        Ok(Some(nrfxlib::gnss::GnssData::Position(p))) => assert_eq!(p.flags, 1),
        other => panic!("expected a position, got {:?}", other),
    }
    // No data yet.
    b.script_recv(-1, b"", 35);
    assert_eq!(skt.get_fix(&mut b), Ok(None));
    skt.close(&mut b);
    // Closing stops the receiver first.
    assert_eq!(b.options.last().map(|o| o.1), Some(8));
    assert_eq!(b.closed.len(), 1);
}

#[test]
fn gnss_getters_read_back_option_values() {
    let mut b = FakeBackend::new();
    let skt = GnssSocket::new(&mut b).expect("socket");
    b.getsockopt_answer = (0, 77);
    assert_eq!(skt.get_fix_interval(&mut b), Ok(77));
    assert_eq!(skt.get_fix_retry(&mut b), Ok(77));
    assert_eq!(skt.get_nmea_mask(&mut b).map(|m| m.as_u16()), Ok(77));
    b.getsockopt_answer = (-3, 0);
    b.errno = 22;
    assert_eq!(
        skt.get_fix_interval(&mut b),
        Err(Error::Nordic("fix_interval", -3, 22))
    );
}

#[test]
fn poll_refuses_more_than_eight_sockets() {
    let mut b = FakeBackend::new();
    let skt = Socket::new(
        &mut b,
        nrfxlib::raw::SocketDomain::Lte,
        nrfxlib::raw::SocketType::Datagram,
        nrfxlib::raw::SocketProtocol::At,
    )
    .expect("socket");
    let mut list: Vec<PollEntry> = Vec::new();
    for _ in 0..9 {
        list.push(PollEntry::new(&skt, PollFlags::Read));
    }
    assert_eq!(poll(&mut b, &mut list, 100), Err(Error::TooManySockets));
}

#[test]
fn poll_records_returned_events() {
    let mut b = FakeBackend::new();
    let skt = Socket::new(
        &mut b,
        nrfxlib::raw::SocketDomain::Lte,
        nrfxlib::raw::SocketType::Datagram,
        nrfxlib::raw::SocketProtocol::At,
    )
    .expect("socket");
    let mut list = vec![
        PollEntry::new(&skt, PollFlags::Read),
        PollEntry::new(&skt, PollFlags::ReadOrWrite),
    ];
    b.poll_answer = (1, vec![1, 2]);
    assert_eq!(poll(&mut b, &mut list, 50), Ok(1));
    assert!(list[0].result().is_readable());
    assert!(list[1].result().is_writable());
    b.poll_answer = (0, Vec::new());
    assert_eq!(poll(&mut b, &mut list, 50), Ok(0));
}

#[test]
fn poll_failure_and_timeout_leave_entries_untouched() {
    let mut b = FakeBackend::new();
    let skt = Socket::new(
        &mut b,
        nrfxlib::raw::SocketDomain::Lte,
        nrfxlib::raw::SocketType::Datagram,
        nrfxlib::raw::SocketProtocol::At,
    )
    .expect("socket");
    let mut list = vec![PollEntry::new(&skt, PollFlags::Read)];
    b.poll_answer = (-1, Vec::new());
    b.errno = 22;
    assert_eq!(poll(&mut b, &mut list, 10), Err(Error::Nordic("poll", -1, 22)));
    assert_eq!(list[0].result().0, 0);
    b.poll_answer = (0, Vec::new());
    assert_eq!(poll(&mut b, &mut list, 10), Ok(0));
    assert_eq!(list[0].result().0, 0);
}

#[test]
fn last_error_reads_the_backend_value() {
    let mut b = FakeBackend::new();
    b.errno = 42;
    assert_eq!(get_last_error(&b), 42);
}
