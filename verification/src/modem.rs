//! Helper functions for dealing with the LTE modem: power states, system
//! mode, and waiting for network registration.

use vstd::prelude::*;
use crate::at::send_at_command;
use crate::at::AtSocket;
use crate::at::ResponseParser;
use crate::at::RETRY_BUDGET;
use crate::backend::Backend;
use crate::raw::Socket;
use crate::raw::SocketDomain;
use crate::raw::SocketProtocol;
use crate::raw::SocketType;
use crate::raw::NRF_EAGAIN;
use crate::text::has_prefix;
use crate::text::has_prefix_spec;
use crate::Error;

verus! {

/// Identifies which radios in the modem should be active.
#[derive(Debug, Copy, Clone, PartialEq, Eq)]
pub enum SystemMode {
    /// LTE-M only.
    LteM,
    /// NB-IoT only.
    NbIot,
    /// GNSS only.
    GnssOnly,
    /// LTE-M and GNSS.
    LteMAndGnss,
    /// NB-IoT and GNSS.
    NbIotAndGnss,
}

/// The command that selects each system mode.
pub open spec fn spec_system_mode_command(mode: SystemMode) -> Seq<char> {
    match mode {
        SystemMode::LteM => "AT%XSYSTEMMODE=1,0,0,0"@,
        SystemMode::NbIot => "AT%XSYSTEMMODE=0,1,0,0"@,
        SystemMode::GnssOnly => "AT%XSYSTEMMODE=0,0,1,0"@,
        SystemMode::LteMAndGnss => "AT%XSYSTEMMODE=1,0,1,0"@,
        SystemMode::NbIotAndGnss => "AT%XSYSTEMMODE=0,1,1,0"@,
    }
}

/// The command line that selects `mode`: the three flags are LTE-M,
/// NB-IoT and GNSS, and the final flag (the LTE preference) is left zero.
pub fn system_mode_command(mode: SystemMode) -> (r: &'static str)
    ensures
        r@ == spec_system_mode_command(mode),
{
    match mode {
        SystemMode::LteM => "AT%XSYSTEMMODE=1,0,0,0",
        SystemMode::NbIot => "AT%XSYSTEMMODE=0,1,0,0",
        SystemMode::GnssOnly => "AT%XSYSTEMMODE=0,0,1,0",
        SystemMode::LteMAndGnss => "AT%XSYSTEMMODE=1,0,1,0",
        SystemMode::NbIotAndGnss => "AT%XSYSTEMMODE=0,1,1,0",
    }
}

/// The response prefix announcing a mode whose three flag digits are `a`,
/// `b` and `c`: `%XSYSTEMMODE: a,b,c,` -- the digit after the final comma
/// is the LTE preference and is ignored.
pub open spec fn mode_prefix(a: u8, b: u8, c: u8) -> Seq<u8> {
    seq![
        37u8, 88u8, 83u8, 89u8, 83u8, 84u8, 69u8, 77u8, 77u8, 79u8, 68u8, 69u8, 58u8, 32u8,
        a, 44u8, b, 44u8, c, 44u8,
    ]
}

/// Which system mode a response line announces: matched by its
/// `%XSYSTEMMODE: a,b,c,` prefix, with the trailing preference digit
/// ignored.
pub open spec fn spec_parse_system_mode(line: Seq<u8>) -> Option<SystemMode> {
    if has_prefix_spec(line, mode_prefix(49, 48, 48)) {
        Some(SystemMode::LteM)
    } else if has_prefix_spec(line, mode_prefix(48, 49, 48)) {
        Some(SystemMode::NbIot)
    } else if has_prefix_spec(line, mode_prefix(48, 48, 49)) {
        Some(SystemMode::GnssOnly)
    } else if has_prefix_spec(line, mode_prefix(49, 48, 49)) {
        Some(SystemMode::LteMAndGnss)
    } else if has_prefix_spec(line, mode_prefix(48, 49, 49)) {
        Some(SystemMode::NbIotAndGnss)
    } else {
        None
    }
}

/// Build the `%XSYSTEMMODE: a,b,c,` prefix with the given flag digits.
fn mode_prefix_vec(a: u8, b: u8, c: u8) -> (r: Vec<u8>)
    ensures
        r@ == mode_prefix(a, b, c),
{
    let mut v: Vec<u8> = Vec::new();
    v.push(37);
    v.push(88);
    v.push(83);
    v.push(89);
    v.push(83);
    v.push(84);
    v.push(69);
    v.push(77);
    v.push(77);
    v.push(79);
    v.push(68);
    v.push(69);
    v.push(58);
    v.push(32);
    v.push(a);
    v.push(44);
    v.push(b);
    v.push(44);
    v.push(c);
    v.push(44);
    proof {
        assert(v@ =~= mode_prefix(a, b, c));
    }
    v
}

/// Parse one response line of the system-mode query.
pub fn parse_system_mode_line(line: &Vec<u8>) -> (r: Option<SystemMode>)
    ensures
        r == spec_parse_system_mode(line@),
{
    let p = mode_prefix_vec(49, 48, 48);
    if has_prefix(line.as_slice(), p.as_slice()) {
        return Some(SystemMode::LteM);
    }
    let p = mode_prefix_vec(48, 49, 48);
    if has_prefix(line.as_slice(), p.as_slice()) {
        return Some(SystemMode::NbIot);
    }
    let p = mode_prefix_vec(48, 48, 49);
    if has_prefix(line.as_slice(), p.as_slice()) {
        return Some(SystemMode::GnssOnly);
    }
    let p = mode_prefix_vec(49, 48, 49);
    if has_prefix(line.as_slice(), p.as_slice()) {
        return Some(SystemMode::LteMAndGnss);
    }
    let p = mode_prefix_vec(48, 49, 49);
    if has_prefix(line.as_slice(), p.as_slice()) {
        return Some(SystemMode::NbIotAndGnss);
    }
    None
}

/// A registration indication that counts as connected: `+CEREG: 1` or
/// `+CEREG: 5` (registered home / roaming), with or without the space.
pub open spec fn spec_connected_indication(line: Seq<u8>) -> bool {
    ||| has_prefix_spec(line, seq![43u8, 67u8, 69u8, 82u8, 69u8, 71u8, 58u8, 32u8, 49u8])
    ||| has_prefix_spec(line, seq![43u8, 67u8, 69u8, 82u8, 69u8, 71u8, 58u8, 49u8])
    ||| has_prefix_spec(line, seq![43u8, 67u8, 69u8, 82u8, 69u8, 71u8, 58u8, 32u8, 53u8])
    ||| has_prefix_spec(line, seq![43u8, 67u8, 69u8, 82u8, 69u8, 71u8, 58u8, 53u8])
}

/// Build `+CEREG:` followed by an optional space and the given digit.
fn cereg_prefix_vec(space: bool, digit: u8) -> (r: Vec<u8>)
    ensures
        space ==> r@ == seq![43u8, 67u8, 69u8, 82u8, 69u8, 71u8, 58u8, 32u8, digit],
        !space ==> r@ == seq![43u8, 67u8, 69u8, 82u8, 69u8, 71u8, 58u8, digit],
{
    let mut v: Vec<u8> = Vec::new();
    v.push(43);
    v.push(67);
    v.push(69);
    v.push(82);
    v.push(69);
    v.push(71);
    v.push(58);
    if space {
        v.push(32);
    }
    v.push(digit);
    proof {
        if space {
            assert(v@ =~= seq![43u8, 67u8, 69u8, 82u8, 69u8, 71u8, 58u8, 32u8, digit]);
        } else {
            assert(v@ =~= seq![43u8, 67u8, 69u8, 82u8, 69u8, 71u8, 58u8, digit]);
        }
    }
    v
}

/// Does this line indicate that the modem is registered on a network?
pub fn is_connected_indication(line: &Vec<u8>) -> (r: bool)
    ensures
        r == spec_connected_indication(line@),
{
    let p = cereg_prefix_vec(true, 49);
    if has_prefix(line.as_slice(), p.as_slice()) {
        return true;
    }
    let p = cereg_prefix_vec(false, 49);
    if has_prefix(line.as_slice(), p.as_slice()) {
        return true;
    }
    let p = cereg_prefix_vec(true, 53);
    if has_prefix(line.as_slice(), p.as_slice()) {
        return true;
    }
    let p = cereg_prefix_vec(false, 53);
    if has_prefix(line.as_slice(), p.as_slice()) {
        return true;
    }
    false
}

/// Wait for the modem to register on a network.
///
/// Subscribes to registration indications with `AT+CEREG=2` and then reads
/// until a line satisfies [`spec_connected_indication`]; the list of
/// accepted indications follows the Nordic link-control driver.  Relies on
/// the firmware eventually delivering such a line.  The retry budget only
/// gives the loop a termination measure; should it ever run out, the
/// exhausted re-polling is reported as one more would-block read failure.
pub fn wait_for_lte<B: Backend>(backend: &mut B) -> (r: Result<(), Error>)
    ensures
        r matches Err(e) ==> e matches Error::Nordic(_, code, _) && code < 0,
{
    let skt = match Socket::new(
        backend,
        SocketDomain::Lte,
        SocketType::Datagram,
        SocketProtocol::At,
    ) {
        Ok(s) => s,
        Err(e) => {
            return Err(e);
        },
    };
    match skt.write(backend, crate::text::str_bytes("AT+CEREG=2").as_slice()) {
        Ok(_) => {},
        Err(e) => {
            skt.close(backend);
            return Err(e);
        },
    }
    let mut parser = ResponseParser::new();
    let mut budget: u64 = RETRY_BUDGET;
    while budget > 0
        decreases budget,
    {
        budget = budget - 1;
        let data = match skt.recv(backend, 128) {
            Ok(Some(d)) => d,
            Ok(None) => {
                backend.wait_for_event();
                continue ;
            },
            Err(e) => {
                skt.close(backend);
                return Err(e);
            },
        };
        let outcome = parser.feed(data.as_slice());
        let mut i: usize = 0;
        let m = outcome.indications.len();
        let mut connected = false;
        while i < m
            invariant
                0 <= i <= m,
                m == outcome.indications@.len(),
            decreases m - i,
        {
            if is_connected_indication(&outcome.indications[i]) {
                connected = true;
            }
            i = i + 1;
        }
        if connected {
            skt.close(backend);
            return Ok(());
        }
    }
    skt.close(backend);
    Err(Error::Nordic("recv", -1, NRF_EAGAIN))
}

/// Power the modem off.
pub fn off<B: Backend>(backend: &mut B) -> (r: Result<(), Error>)
    ensures
        r matches Err(e) ==> (e matches Error::AtError(_)) || (e matches Error::Nordic(_, _, _)),
{
    match send_at_command(backend, "AT+CFUN=0") {
        Ok(_lines) => Ok(()),
        Err(e) => Err(e),
    }
}

/// Enable GNSS RF routing on boards that switch the GNSS antenna through
/// MAGPIO: activates the off-chip switch for signals between 1574 MHz and
/// 1577 MHz.
pub fn configure_gnss_on_pca10090ns<B: Backend>(backend: &mut B) -> (r: Result<(), Error>)
    ensures
        r matches Err(e) ==> (e matches Error::AtError(_)) || (e matches Error::Nordic(_, _, _)),
{
    match send_at_command(backend, "AT%XMAGPIO=1,0,0,1,1,1574,1577") {
        Ok(_lines) => Ok(()),
        Err(e) => Err(e),
    }
}

/// Set which radios should be active, as [`spec_system_mode_command`]
/// states.  Only works while the modem is off.
pub fn set_system_mode<B: Backend>(backend: &mut B, mode: SystemMode) -> (r: Result<(), Error>)
    ensures
        r matches Err(e) ==> (e matches Error::AtError(_)) || (e matches Error::Nordic(_, _, _)),
{
    match send_at_command(backend, system_mode_command(mode)) {
        Ok(_lines) => Ok(()),
        Err(e) => Err(e),
    }
}

/// Ask which radios should be active.  Each response line is parsed as
/// [`spec_parse_system_mode`] states, the last recognised line wins, and
/// an exchange with no recognised line is an unrecognised value.
pub fn get_system_mode<B: Backend>(backend: &mut B) -> (r: Result<SystemMode, Error>)
    ensures
        r matches Err(e) ==> e == Error::UnrecognisedValue || (e matches Error::AtError(_)) || (
        e matches Error::Nordic(_, _, _)),
{
    let lines = match send_at_command(backend, "AT%XSYSTEMMODE?") {
        Ok(lines) => lines,
        Err(e) => {
            return Err(e);
        },
    };
    let mut result: Result<SystemMode, Error> = Err(Error::UnrecognisedValue);
    let mut i: usize = 0;
    let n = lines.len();
    while i < n
        invariant
            0 <= i <= n,
            n == lines@.len(),
            result matches Err(e) ==> e == Error::UnrecognisedValue,
            result matches Ok(_) || result == Err::<SystemMode, Error>(Error::UnrecognisedValue),
        decreases n - i,
    {
        match parse_system_mode_line(&lines[i]) {
            Some(mode) => {
                result = Ok(mode);
            },
            None => {},
        }
        i = i + 1;
    }
    result
}

/// Put the modem into flight mode.  Sends the command without waiting for
/// a response, as the power-state helpers do.
pub fn flight_mode<B: Backend>(backend: &mut B) -> (r: Result<(), Error>)
    ensures
        r matches Err(e) ==> e matches Error::Nordic(_, code, _) && code < 0,
{
    let skt = match AtSocket::new(backend) {
        Ok(s) => s,
        Err(e) => {
            return Err(e);
        },
    };
    let sent = skt.send_command(backend, "AT+CFUN=4");
    skt.close(backend);
    sent
}

/// Power the modem on and set it to auto-register, without waiting for it
/// to connect to a network.
pub fn start<B: Backend>(backend: &mut B) -> (r: Result<(), Error>)
    ensures
        r matches Err(e) ==> e matches Error::Nordic(_, code, _) && code < 0,
{
    let skt = match AtSocket::new(backend) {
        Ok(s) => s,
        Err(e) => {
            return Err(e);
        },
    };
    match skt.send_command(backend, "AT+COPS=0") {
        Ok(()) => {},
        Err(e) => {
            skt.close(backend);
            return Err(e);
        },
    }
    let sent = skt.send_command(backend, "AT+CFUN=1");
    skt.close(backend);
    sent
}

} // verus!
