//! Tests for wire marshalling: socket option encodings, byte-order
//! helpers, poll results, AT command builders and IPC bookkeeping.

use nrfxlib::at::RETRY_BUDGET;
use nrfxlib::ipc::pending_event_indices;
use nrfxlib::ipc::IpcBridge;
use nrfxlib::ipc::NrfxErr;
use nrfxlib::modem::parse_system_mode_line;
use nrfxlib::modem::system_mode_command;
use nrfxlib::modem::SystemMode;
use nrfxlib::raw::htons;
use nrfxlib::raw::PollResult;
use nrfxlib::raw::SocketOption;
use nrfxlib::raw::NRF_SOL_GNSS;
use nrfxlib::raw::NRF_SOL_SECURE;
use nrfxlib::tls::cmng_delete_command;
use nrfxlib::tls::cmng_write_command;
use nrfxlib::tls::CredentialType;

#[test]
fn peer_verification_levels_are_distinct_codes() {
    // The three verification levels map to 0, 1 and 2.
    assert_eq!(nrfxlib::tls::PeerVerification::Disabled.as_integer(), 0);
    assert_eq!(nrfxlib::tls::PeerVerification::Optional.as_integer(), 1);
    assert_eq!(nrfxlib::tls::PeerVerification::Enabled.as_integer(), 2);
}

#[test]
fn dtls_peer_verification_matches_tls() {
    assert_eq!(nrfxlib::dtls::PeerVerification::Disabled.as_integer(), 0);
    assert_eq!(nrfxlib::dtls::PeerVerification::Optional.as_integer(), 1);
    assert_eq!(nrfxlib::dtls::PeerVerification::Enabled.as_integer(), 2);
}

#[test]
fn option_levels_and_names_follow_the_abi() {
    let o = SocketOption::TlsPeerVerify(2);
    assert_eq!(o.get_level(), NRF_SOL_SECURE);
    assert_eq!(o.get_name(), 4);
    let o = SocketOption::TlsHostName(b"example.com".to_vec());
    assert_eq!(o.get_level(), NRF_SOL_SECURE);
    assert_eq!(o.get_name(), 5);
    let o = SocketOption::TlsSessionCache(0);
    assert_eq!(o.get_name(), 3);
    let o = SocketOption::TlsTagList(vec![1]);
    assert_eq!(o.get_name(), 2);
    let o = SocketOption::GnssFixInterval(1);
    assert_eq!(o.get_level(), NRF_SOL_GNSS);
    assert_eq!(o.get_name(), 1);
    assert_eq!(SocketOption::GnssFixRetry(60).get_name(), 2);
    assert_eq!(SocketOption::GnssNmeaMask(0).get_name(), 4);
    assert_eq!(SocketOption::GnssStart(0).get_name(), 7);
    assert_eq!(SocketOption::GnssStop.get_name(), 8);
}

#[test]
fn option_values_encode_little_endian() {
    assert_eq!(
        SocketOption::TlsPeerVerify(2).value_bytes(),
        vec![2, 0, 0, 0]
    );
    assert_eq!(
        SocketOption::GnssFixInterval(0x1234).value_bytes(),
        vec![0x34, 0x12]
    );
    assert_eq!(
        SocketOption::GnssStart(0x0102_0304).value_bytes(),
        vec![4, 3, 2, 1]
    );
    assert_eq!(SocketOption::GnssStop.value_bytes(), Vec::<u8>::new());
    assert_eq!(
        SocketOption::TlsHostName(b"host".to_vec()).value_bytes(),
        b"host".to_vec()
    );
}

#[test]
fn tag_list_encodes_contiguous_little_endian_tags() {
    let o = SocketOption::TlsTagList(vec![0x0102_0304, 5]);
    assert_eq!(o.value_bytes(), vec![4, 3, 2, 1, 5, 0, 0, 0]);
}

#[test]
fn htons_swaps_the_bytes() {
    assert_eq!(htons(0x1234), 0x3412);
    assert_eq!(htons(0x00FF), 0xFF00);
    assert_eq!(htons(8883), 0xB322);
    assert_eq!(htons(htons(4711)), 4711);
}

#[test]
fn poll_result_reads_its_bits() {
    let r = PollResult(0b00001);
    assert!(r.is_readable());
    assert!(!r.is_writable());
    let r = PollResult(0b00110);
    assert!(r.is_writable());
    assert!(r.is_errored());
    assert!(!r.is_closed());
    let r = PollResult(0b11000);
    assert!(r.is_closed());
    assert!(r.was_not_open());
}

#[test]
fn system_mode_commands_follow_the_flag_table() {
    assert_eq!(system_mode_command(SystemMode::LteM), "AT%XSYSTEMMODE=1,0,0,0");
    assert_eq!(system_mode_command(SystemMode::NbIot), "AT%XSYSTEMMODE=0,1,0,0");
    assert_eq!(system_mode_command(SystemMode::GnssOnly), "AT%XSYSTEMMODE=0,0,1,0");
    assert_eq!(system_mode_command(SystemMode::LteMAndGnss), "AT%XSYSTEMMODE=1,0,1,0");
    assert_eq!(system_mode_command(SystemMode::NbIotAndGnss), "AT%XSYSTEMMODE=0,1,1,0");
}

#[test]
fn system_mode_lines_parse_by_prefix() {
    assert_eq!(
        parse_system_mode_line(&b"%XSYSTEMMODE: 1,0,0,0".to_vec()),
        Some(SystemMode::LteM)
    );
    assert_eq!(
        parse_system_mode_line(&b"%XSYSTEMMODE: 0,1,0,1".to_vec()),
        Some(SystemMode::NbIot)
    );
    assert_eq!(
        parse_system_mode_line(&b"%XSYSTEMMODE: 0,0,1,0".to_vec()),
        Some(SystemMode::GnssOnly)
    );
    assert_eq!(
        parse_system_mode_line(&b"%XSYSTEMMODE: 1,0,1,2".to_vec()),
        Some(SystemMode::LteMAndGnss)
    );
    assert_eq!(
        parse_system_mode_line(&b"%XSYSTEMMODE: 0,1,1,0".to_vec()),
        Some(SystemMode::NbIotAndGnss)
    );
    assert_eq!(parse_system_mode_line(&b"%XSYSTEMMODE: 1,1,1,0".to_vec()), None);
    assert_eq!(parse_system_mode_line(&b"OK".to_vec()), None);
}

#[test]
fn cmng_delete_command_renders_decimals() {
    assert_eq!(
        cmng_delete_command(16842753, CredentialType::RootCA),
        b"AT%CMNG=3,16842753,0\r\n".to_vec()
    );
    assert_eq!(
        cmng_delete_command(0, CredentialType::ClientPrivate),
        b"AT%CMNG=3,0,2\r\n".to_vec()
    );
}

#[test]
fn cmng_write_command_quotes_the_blob() {
    assert_eq!(
        cmng_write_command(123, CredentialType::ClientCert, "PEM DATA"),
        b"AT%CMNG=0,123,1,\"PEM DATA\"\r\n".to_vec()
    );
}

#[test]
fn pending_events_come_lowest_bit_first() {
    assert_eq!(pending_event_indices(0), Vec::<u32>::new());
    assert_eq!(pending_event_indices(0b1010_0001), vec![0, 5, 7]);
    assert_eq!(pending_event_indices(1 << 31), vec![31]);
    assert_eq!(pending_event_indices(u32::MAX).len(), 32);
}

#[test]
fn ipc_registration_overwrites_the_slot() {
    let mut b = IpcBridge::new();
    assert!(!b.is_registered());
    assert_eq!(b.register(0x1234, 0x99), NrfxErr::Success);
    assert!(b.is_registered());
    assert_eq!(b.handler_addr(), 0x1234);
    assert_eq!(b.context(), 0x99);
    assert_eq!(b.register(0x5678, 0x11), NrfxErr::Success);
    assert_eq!(b.handler_addr(), 0x5678);
    assert_eq!(b.context(), 0x11);
}

#[test]
fn ipc_error_codes_share_the_base() {
    assert_eq!(NrfxErr::Success.code(), 0x0BAD0000);
    assert_eq!(NrfxErr::ErrorNoMem.code(), 0x0BAD0002);
    assert_eq!(NrfxErr::ErrorAlreadyInitialized.code(), 0x0BAD000C);
}

#[test]
fn retry_budget_is_effectively_unbounded() {
    assert_eq!(RETRY_BUDGET, u64::MAX);
}
