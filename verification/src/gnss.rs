//! GNSS: the socket to the positioning sub-system and the decoder for the
//! frames it delivers.
//!
//! A read from the GNSS socket returns a fixed-size buffer whose first byte
//! is a discriminant: a binary position record, a bounded NMEA text record,
//! or a binary assistance-data request.  [`process_fix`] validates the
//! discriminant before touching any payload byte and copies the payload out
//! into a tagged value; an unknown discriminant or ill-formed text is a
//! decode error, never a crash.  Floating-point fields of the position
//! record are carried as their IEEE-754 bit patterns -- interpreting them
//! is the caller's business, not the decoder's.

use vstd::prelude::*;
use crate::backend::Backend;
use crate::raw::Socket;
use crate::raw::SocketDomain;
use crate::raw::SocketOption;
use crate::raw::SocketProtocol;
use crate::raw::SocketType;
use crate::raw::NRF_EAGAIN;
use crate::text::find_break;
use crate::text::is_break;
use crate::text::lemma_find_break_at;
use crate::text::is_valid_utf8;
use crate::text::subvec;
use crate::Error;

verus! {

/// Frame discriminant: binary position record.
pub const NRF_GNSS_PVT_DATA_ID: u8 = 1;

/// Frame discriminant: NMEA text record.
pub const NRF_GNSS_NMEA_DATA_ID: u8 = 2;

/// Frame discriminant: assistance-data request record.
pub const NRF_GNSS_AGPS_DATA_ID: u8 = 3;

/// Position-record flag bit: the fix is valid.
pub const NRF_GNSS_PVT_FLAG_FIX_VALID_BIT: u8 = 1;

/// Longest NMEA sentence the firmware delivers, terminator included.
pub const NRF_GNSS_NMEA_MAX_LEN: usize = 83;

/// Number of satellite slots in a position record.
pub const NRF_GNSS_MAX_SATELLITES: usize = 12;

/// Size of the raw frame buffer: one discriminant byte, padding to the
/// eight-byte alignment of the position record, and the largest payload
/// (the position record itself).
pub const GNSS_FRAME_SIZE: usize = 216;

/// Offset of the frame payload behind the discriminant and its padding.
pub const GNSS_PAYLOAD_OFFSET: usize = 8;

/// The 16-bit little-endian value at `s[off..off+2]`.
pub open spec fn le16_at(s: Seq<u8>, off: int) -> u16 {
    (s[off] as int + (s[off + 1] as int) * 0x100) as u16
}

/// The 32-bit little-endian value at `s[off..off+4]`.
pub open spec fn le32_at(s: Seq<u8>, off: int) -> u32 {
    (s[off] as int + (s[off + 1] as int) * 0x100 + (s[off + 2] as int) * 0x10000 + (s[off
        + 3] as int) * 0x1000000) as u32
}

/// The 64-bit little-endian value at `s[off..off+8]`.
pub open spec fn le64_at(s: Seq<u8>, off: int) -> u64 {
    (le32_at(s, off) as int + (le32_at(s, off + 4) as int) * 0x100000000) as u64
}

/// Read a 16-bit little-endian value.
fn read_le16(buf: &Vec<u8>, off: usize) -> (r: u16)
    requires
        off + 2 <= buf@.len(),
    ensures
        r == le16_at(buf@, off as int),
{
    let n = buf.len();
    assert(off + 2 <= n);
    (buf[off] as u16) + (buf[off + 1] as u16) * 0x100
}

/// Read a 32-bit little-endian value.
fn read_le32(buf: &Vec<u8>, off: usize) -> (r: u32)
    requires
        off + 4 <= buf@.len(),
    ensures
        r == le32_at(buf@, off as int),
{
    let n = buf.len();
    assert(off + 4 <= n);
    (buf[off] as u32) + (buf[off + 1] as u32) * 0x100 + (buf[off + 2] as u32) * 0x10000 + (buf[off
        + 3] as u32) * 0x1000000
}

/// Read a 64-bit little-endian value.
fn read_le64(buf: &Vec<u8>, off: usize) -> (r: u64)
    requires
        off + 8 <= buf@.len(),
    ensures
        r == le64_at(buf@, off as int),
{
    let n = buf.len();
    assert(off + 8 <= n);
    let lo = read_le32(buf, off);
    let hi = read_le32(buf, off + 4);
    (lo as u64) + (hi as u64) * 0x100000000
}

/// Date and time of a position fix.
#[derive(Debug, Clone, Copy, PartialEq, Eq)]
pub struct GnssDateTime {
    /// 4-digit year (Gregorian calendar).
    pub year: u16,
    /// Month, 1..=12.
    pub month: u8,
    /// Day, 1..=31.
    pub day: u8,
    /// Hour, 0..=23.
    pub hour: u8,
    /// Minute, 0..=59.
    pub minute: u8,
    /// Second, 0..=59.
    pub seconds: u8,
    /// Millisecond, 0..=999.
    pub ms: u16,
}

/// One space vehicle used for a measurement.
#[derive(Debug, Clone, Copy, PartialEq, Eq)]
pub struct SatelliteInfo {
    /// SV number, 1..=32 for GPS.
    pub sv: u16,
    /// Signal type; 0 is invalid, 1 is GPS L1C/A.
    pub signal: u8,
    /// Carrier-to-noise density, 0.1 dB/Hz units.
    pub cn0: u16,
    /// Elevation angle in degrees.
    pub elevation: i16,
    /// Azimuth angle in degrees.
    pub azimuth: i16,
    /// Measurement and computation flag bits.
    pub flags: u8,
}

/// A decoded binary position record.  The floating-point fields are
/// carried as IEEE-754 bit patterns, little-endian as on the wire.
#[derive(Debug, Clone, PartialEq, Eq)]
pub struct PositionFrame {
    /// Latitude in degrees; bits of an IEEE-754 double.
    pub latitude_bits: u64,
    /// Longitude in degrees; bits of an IEEE-754 double.
    pub longitude_bits: u64,
    /// Altitude above the WGS-84 ellipsoid in metres; bits of a float.
    pub altitude_bits: u32,
    /// Accuracy (2D 1-sigma) in metres; bits of a float.
    pub accuracy_bits: u32,
    /// Horizontal speed in metres per second; bits of a float.
    pub speed_bits: u32,
    /// Heading of movement in degrees; bits of a float.
    pub heading_bits: u32,
    /// Date and time of the fix.
    pub datetime: GnssDateTime,
    /// Position dilution of precision; bits of a float.
    pub pdop_bits: u32,
    /// Horizontal dilution of precision; bits of a float.
    pub hdop_bits: u32,
    /// Vertical dilution of precision; bits of a float.
    pub vdop_bits: u32,
    /// Time dilution of precision; bits of a float.
    pub tdop_bits: u32,
    /// Flag bits; bit 0 is fix validity.
    pub flags: u8,
    /// The satellite slots, always [`NRF_GNSS_MAX_SATELLITES`] of them.
    pub satellites: Vec<SatelliteInfo>,
}

/// A decoded assistance-data request record.
#[derive(Debug, Clone, Copy, PartialEq, Eq)]
pub struct AgpsFrame {
    /// Satellite PRNs for which ephemeris data is needed.
    pub sv_mask_ephe: u32,
    /// Satellite PRNs for which almanac data is needed.
    pub sv_mask_alm: u32,
    /// Which other assistance data models are needed.
    pub data_flags: u32,
}

/// Represents a position, an NMEA string, or an assistance-data request
/// from the GNSS subsystem.
#[derive(Debug, Clone, PartialEq, Eq)]
pub enum GnssData {
    /// An NMEA sentence, beginning with `$`.
    Nmea {
        /// The fixed-size text field as delivered, not NUL-terminated.
        buffer: Vec<u8>,
        /// The number of meaningful bytes in `buffer`: up to the first
        /// NUL, carriage return or line feed.
        length: usize,
    },
    /// A position, velocity and time record.
    Position(PositionFrame),
    /// An assistance-data request.
    Agps(AgpsFrame),
}

/// The date-time fields at `off` in a raw frame: year and millisecond are
/// 16-bit little-endian, the rest single bytes, with one padding byte
/// before the millisecond.
pub open spec fn spec_datetime(s: Seq<u8>, off: int) -> GnssDateTime {
    GnssDateTime {
        year: le16_at(s, off),
        month: s[off + 2],
        day: s[off + 3],
        hour: s[off + 4],
        minute: s[off + 5],
        seconds: s[off + 6],
        ms: le16_at(s, off + 8),
    }
}

/// The satellite fields at `off` in a raw frame.
pub open spec fn spec_satellite(s: Seq<u8>, off: int) -> SatelliteInfo {
    SatelliteInfo {
        sv: le16_at(s, off),
        signal: s[off + 2],
        cn0: le16_at(s, off + 4),
        elevation: le16_at(s, off + 6) as i16,
        azimuth: le16_at(s, off + 8) as i16,
        flags: s[off + 10],
    }
}

/// `p` holds exactly the position record laid out in the raw frame `s`:
/// two doubles, four floats, the packed date-time, four more floats, the
/// flag byte, then twelve 12-byte satellite slots.
pub open spec fn position_matches(p: PositionFrame, s: Seq<u8>) -> bool {
    &&& p.latitude_bits == le64_at(s, 8)
    &&& p.longitude_bits == le64_at(s, 16)
    &&& p.altitude_bits == le32_at(s, 24)
    &&& p.accuracy_bits == le32_at(s, 28)
    &&& p.speed_bits == le32_at(s, 32)
    &&& p.heading_bits == le32_at(s, 36)
    &&& p.datetime == spec_datetime(s, 40)
    &&& p.pdop_bits == le32_at(s, 52)
    &&& p.hdop_bits == le32_at(s, 56)
    &&& p.vdop_bits == le32_at(s, 60)
    &&& p.tdop_bits == le32_at(s, 64)
    &&& p.flags == s[68]
    &&& p.satellites@.len() == NRF_GNSS_MAX_SATELLITES
    &&& forall|k: int|
        0 <= k < NRF_GNSS_MAX_SATELLITES ==> #[trigger] p.satellites@[k] == spec_satellite(
            s,
            70 + 12 * k,
        )
}

/// The fixed-size NMEA text field of a raw frame.
pub open spec fn nmea_payload(s: Seq<u8>) -> Seq<u8> {
    s.subrange(GNSS_PAYLOAD_OFFSET as int, GNSS_PAYLOAD_OFFSET + NRF_GNSS_NMEA_MAX_LEN)
}

/// The logical length of the NMEA text: up to the first NUL, carriage
/// return or line feed, and zero when no such byte occurs in the field.
pub open spec fn nmea_len(s: Seq<u8>) -> int {
    match find_break(nmea_payload(s)) {
        Some(i) => i,
        None => 0,
    }
}


/// What decoding a delivered frame buffer yields: too-short buffers and
/// unknown discriminants are format errors; a position or assistance
/// frame is copied out field by field; a text frame is scanned for its
/// logical length and must be well-formed UTF-8 text up to there.
pub open spec fn decode_case(s: Seq<u8>, r: Result<Option<GnssData>, Error>) -> bool {
    if s.len() < GNSS_FRAME_SIZE {
        r == Err::<Option<GnssData>, Error>(Error::BadDataFormat)
    } else if s[0] == NRF_GNSS_PVT_DATA_ID {
        match r {
            Ok(Some(GnssData::Position(p))) => position_matches(p, s),
            _ => false,
        }
    } else if s[0] == NRF_GNSS_NMEA_DATA_ID {
        if vstd::utf8::valid_utf8(nmea_payload(s).take(nmea_len(s))) {
            match r {
                Ok(Some(GnssData::Nmea { buffer, length })) => buffer@ == nmea_payload(s)
                    && length == nmea_len(s),
                _ => false,
            }
        } else {
            r == Err::<Option<GnssData>, Error>(Error::BadDataFormat)
        }
    } else if s[0] == NRF_GNSS_AGPS_DATA_ID {
        match r {
            Ok(Some(GnssData::Agps(a))) => a.sv_mask_ephe == le32_at(s, 8) && a.sv_mask_alm
                == le32_at(s, 12) && a.data_flags == le32_at(s, 16),
            _ => false,
        }
    } else {
        r == Err::<Option<GnssData>, Error>(Error::BadDataFormat)
    }
}

/// Parse the outcome of a GNSS socket read.
///
/// `count` is the read's return code: zero means no frame is available
/// (not an error); a negative code with the firmware's "try again" errno
/// also means no frame, any other negative code is a reported backend
/// failure; a positive count means `frame` carries one structured frame,
/// decoded as [`decode_case`] states.
pub fn process_fix(count: i32, last_err: i32, frame: &Vec<u8>) -> (r: Result<
    Option<GnssData>,
    Error,
>)
    ensures
        count == 0 ==> r == Ok::<Option<GnssData>, Error>(None),
        count < 0 && last_err == NRF_EAGAIN ==> r == Ok::<Option<GnssData>, Error>(None),
        count < 0 && last_err != NRF_EAGAIN ==> r == Err::<Option<GnssData>, Error>(
            Error::Nordic("get_fix", count, last_err),
        ),
        count > 0 ==> decode_case(frame@, r),
{
    if count == 0 {
        return Ok(None);
    }
    if count < 0 {
        if last_err == NRF_EAGAIN {
            return Ok(None);
        }
        return Err(Error::Nordic("get_fix", count, last_err));
    }
    if frame.len() < GNSS_FRAME_SIZE {
        return Err(Error::BadDataFormat);
    }
    let data_id = frame[0];
    if data_id == NRF_GNSS_PVT_DATA_ID {
        let mut satellites: Vec<SatelliteInfo> = Vec::new();
        let mut k: usize = 0;
        while k < NRF_GNSS_MAX_SATELLITES
            invariant
                count > 0,
                frame@.len() >= GNSS_FRAME_SIZE,
                frame@[0] == NRF_GNSS_PVT_DATA_ID,
                0 <= k <= NRF_GNSS_MAX_SATELLITES,
                satellites@.len() == k,
                forall|j: int|
                    0 <= j < k ==> #[trigger] satellites@[j] == spec_satellite(frame@, 70 + 12 * j),
            decreases NRF_GNSS_MAX_SATELLITES - k,
        {
            let off = 70 + 12 * k;
            let elevation_raw = read_le16(frame, off + 6);
            let azimuth_raw = read_le16(frame, off + 8);
            satellites.push(
                SatelliteInfo {
                    sv: read_le16(frame, off),
                    signal: frame[off + 2],
                    cn0: read_le16(frame, off + 4),
                    elevation: elevation_raw as i16,
                    azimuth: azimuth_raw as i16,
                    flags: frame[off + 10],
                },
            );
            k = k + 1;
        }
        let position = PositionFrame {
            latitude_bits: read_le64(frame, 8),
            longitude_bits: read_le64(frame, 16),
            altitude_bits: read_le32(frame, 24),
            accuracy_bits: read_le32(frame, 28),
            speed_bits: read_le32(frame, 32),
            heading_bits: read_le32(frame, 36),
            datetime: GnssDateTime {
                year: read_le16(frame, 40),
                month: frame[42],
                day: frame[43],
                hour: frame[44],
                minute: frame[45],
                seconds: frame[46],
                ms: read_le16(frame, 48),
            },
            pdop_bits: read_le32(frame, 52),
            hdop_bits: read_le32(frame, 56),
            vdop_bits: read_le32(frame, 60),
            tdop_bits: read_le32(frame, 64),
            flags: frame[68],
            satellites,
        };
        Ok(Some(GnssData::Position(position)))
    } else if data_id == NRF_GNSS_NMEA_DATA_ID {
        let payload = subvec(frame, GNSS_PAYLOAD_OFFSET, GNSS_PAYLOAD_OFFSET + NRF_GNSS_NMEA_MAX_LEN);
        proof {
            assert(payload@ =~= nmea_payload(frame@));
        }
        // Scan for the first terminator to find the logical length.
        let mut j: usize = 0;
        let n = payload.len();
        while j < n && !(payload[j] == 0 || payload[j] == 13 || payload[j] == 10)
            invariant
                count > 0,
                frame@.len() >= GNSS_FRAME_SIZE,
                frame@[0] == NRF_GNSS_NMEA_DATA_ID,
                payload@ == nmea_payload(frame@),
                n == payload@.len(),
                0 <= j <= n,
                forall|k2: int| 0 <= k2 < j ==> !is_break(#[trigger] payload@[k2]),
            decreases n - j,
        {
            j = j + 1;
        }
        proof {
            lemma_find_break_at(payload@, j as int);
        }
        let length: usize = if j < n {
            j
        } else {
            0
        };
        // Validate the logical range as well-formed UTF-8 text.
        let text = subvec(&payload, 0, length);
        proof {
            assert(text@ =~= nmea_payload(frame@).take(nmea_len(frame@)));
        }
        if !is_valid_utf8(text.as_slice()) {
            return Err(Error::BadDataFormat);
        }
        Ok(Some(GnssData::Nmea { buffer: payload, length }))
    } else if data_id == NRF_GNSS_AGPS_DATA_ID {
        Ok(
            Some(
                GnssData::Agps(
                    AgpsFrame {
                        sv_mask_ephe: read_le32(frame, 8),
                        sv_mask_alm: read_le32(frame, 12),
                        data_flags: read_le32(frame, 16),
                    },
                ),
            ),
        )
    } else {
        Err(Error::BadDataFormat)
    }
}

impl GnssData {
    /// Returns true only for a position frame whose fix-valid flag bit is
    /// set; text and assistance frames are never a valid fix.
    pub fn is_valid(&self) -> (r: bool)
        ensures
            r == (self matches GnssData::Position(p) && p.flags & NRF_GNSS_PVT_FLAG_FIX_VALID_BIT
                != 0),
    {
        match self {
            GnssData::Nmea { .. } => false,
            GnssData::Position(p) => (p.flags & NRF_GNSS_PVT_FLAG_FIX_VALID_BIT) != 0,
            GnssData::Agps(_) => false,
        }
    }
}

/// The specific sentences you can enable or disable in an [`NmeaMask`].
#[derive(Debug, Copy, Clone, Eq, PartialEq)]
pub enum NmeaField {
    /// Global positioning system fix data.
    GpsFixData,
    /// Geographic position latitude/longitude and time.
    LatLongTime,
    /// Dilution of precision and active satellites.
    DopAndActiveSatellites,
    /// Satellites in view.
    SatellitesInView,
    /// Recommended minimum specific GPS/transit data.
    RecommendedMinimumSpecificFixData,
}

/// The mask bit of each NMEA sentence.
pub open spec fn spec_nmea_field_value(f: NmeaField) -> u16 {
    match f {
        NmeaField::GpsFixData => 1,
        NmeaField::LatLongTime => 2,
        NmeaField::DopAndActiveSatellites => 4,
        NmeaField::SatellitesInView => 8,
        NmeaField::RecommendedMinimumSpecificFixData => 16,
    }
}

impl NmeaField {
    /// Convert an `NmeaField` into its mask bit.
    pub fn value(self) -> (r: u16)
        ensures
            r == spec_nmea_field_value(self),
    {
        match self {
            NmeaField::GpsFixData => 1,
            NmeaField::LatLongTime => 2,
            NmeaField::DopAndActiveSatellites => 4,
            NmeaField::SatellitesInView => 8,
            NmeaField::RecommendedMinimumSpecificFixData => 16,
        }
    }
}

/// Specifies which NMEA sentences you want from the GNSS sub-system.
#[derive(Debug, Copy, Clone, Eq, PartialEq)]
pub struct NmeaMask(u16);

impl NmeaMask {
    /// The raw mask bits.
    pub closed spec fn spec_bits(self) -> u16 {
        self.0
    }

    /// Create a new mask which selects no NMEA sentences.
    pub fn new() -> (r: Self)
        ensures
            r.spec_bits() == 0,
    {
        NmeaMask(0)
    }

    /// Enable a particular NMEA sentence in this mask.
    pub fn set(self, field: NmeaField) -> (r: Self)
        ensures
            r.spec_bits() == self.spec_bits() | spec_nmea_field_value(field),
    {
        NmeaMask(self.0 | field.value())
    }

    /// Disable a particular NMEA sentence in this mask.
    pub fn clear(self, field: NmeaField) -> (r: Self)
        ensures
            r.spec_bits() == self.spec_bits() & !spec_nmea_field_value(field),
    {
        NmeaMask(self.0 & !field.value())
    }

    /// Convert to an integer, for the socket option to carry.
    pub fn as_u16(self) -> (r: u16)
        ensures
            r == self.spec_bits(),
    {
        self.0
    }
}

/// The specific non-volatile data you can select in a [`DeleteMask`].
#[derive(Debug, Copy, Clone, Eq, PartialEq)]
pub enum DeleteField {
    /// Bit 0: ephemerides.
    Ephemerides,
    /// Bit 1: almanac (excluding leap second and ionospheric correction).
    Almanac,
    /// Bit 2: ionospheric correction parameters.
    IonosphericCorrection,
    /// Bit 3: the last good fix (the last position).
    LastGoodFix,
    /// Bit 4: GPS time-of-week.
    TimeOfWeek,
    /// Bit 5: GPS week number.
    WeekNumber,
    /// Bit 6: leap second (UTC parameters).
    LeapSecond,
    /// Bit 7: local clock (TCXO) frequency offset.
    LocalClockFrequencyOffset,
}

/// The mask bit of each deletable non-volatile datum.
pub open spec fn spec_delete_field_value(f: DeleteField) -> u32 {
    match f {
        DeleteField::Ephemerides => 1,
        DeleteField::Almanac => 2,
        DeleteField::IonosphericCorrection => 4,
        DeleteField::LastGoodFix => 8,
        DeleteField::TimeOfWeek => 16,
        DeleteField::WeekNumber => 32,
        DeleteField::LeapSecond => 64,
        DeleteField::LocalClockFrequencyOffset => 128,
    }
}

impl DeleteField {
    /// Convert a `DeleteField` into its mask bit.
    pub fn value(self) -> (r: u32)
        ensures
            r == spec_delete_field_value(self),
    {
        match self {
            DeleteField::Ephemerides => 1,
            DeleteField::Almanac => 2,
            DeleteField::IonosphericCorrection => 4,
            DeleteField::LastGoodFix => 8,
            DeleteField::TimeOfWeek => 16,
            DeleteField::WeekNumber => 32,
            DeleteField::LeapSecond => 64,
            DeleteField::LocalClockFrequencyOffset => 128,
        }
    }
}

/// Specifies which non-volatile data to delete before starting the GNSS.
#[derive(Debug, Copy, Clone, Eq, PartialEq)]
pub struct DeleteMask(u32);

impl DeleteMask {
    /// The raw mask bits.
    pub closed spec fn spec_bits(self) -> u32 {
        self.0
    }

    /// Create a new mask which selects nothing to be deleted.
    pub fn new() -> (r: Self)
        ensures
            r.spec_bits() == 0,
    {
        DeleteMask(0)
    }

    /// Mark a particular datum as requiring deletion.
    pub fn set(self, field: DeleteField) -> (r: Self)
        ensures
            r.spec_bits() == self.spec_bits() | spec_delete_field_value(field),
    {
        DeleteMask(self.0 | field.value())
    }

    /// Unmark a particular datum as requiring deletion.
    pub fn clear(self, field: DeleteField) -> (r: Self)
        ensures
            r.spec_bits() == self.spec_bits() & !spec_delete_field_value(field),
    {
        DeleteMask(self.0 & !field.value())
    }

    /// Convert to an integer, for the socket option to carry.
    pub fn as_u32(self) -> (r: u32)
        ensures
            r == self.spec_bits(),
    {
        self.0
    }
}

/// Represents a connection to the GNSS sub-system.
#[derive(Debug)]
pub struct GnssSocket(Socket);

impl GnssSocket {
    /// Create a new GNSS socket.
    pub fn new<B: Backend>(backend: &mut B) -> (r: Result<GnssSocket, Error>)
        ensures
            r matches Err(e) ==> e matches Error::Nordic(op, code, _) && op@ == "new_socket"@
                && code < 0,
    {
        match Socket::new(
            backend,
            SocketDomain::Local,
            SocketType::Datagram,
            SocketProtocol::Gnss,
        ) {
            Ok(skt) => Ok(GnssSocket(skt)),
            Err(e) => Err(e),
        }
    }

    /// Start the GNSS system, deleting the non-volatile data selected by
    /// `delete_mask` first.
    pub fn start<B: Backend>(&self, backend: &mut B, delete_mask: DeleteMask) -> (r: Result<
        (),
        Error,
    >)
        ensures
            r matches Err(e) ==> e matches Error::Nordic(op, code, _) && op@ == "set_option"@
                && code < 0,
    {
        self.0.set_option(backend, &SocketOption::GnssStart(delete_mask.as_u32()))
    }

    /// Stop the GNSS system.
    pub fn stop<B: Backend>(&self, backend: &mut B) -> (r: Result<(), Error>)
        ensures
            r matches Err(e) ==> e matches Error::Nordic(op, code, _) && op@ == "set_option"@
                && code < 0,
    {
        self.0.set_option(backend, &SocketOption::GnssStop)
    }

    /// Set the interval between fixes, in seconds; 0 selects single-fix
    /// mode.
    pub fn set_fix_interval<B: Backend>(&self, backend: &mut B, interval: u16) -> (r: Result<
        (),
        Error,
    >)
        ensures
            r matches Err(e) ==> e matches Error::Nordic(op, code, _) && op@ == "set_option"@
                && code < 0,
    {
        self.0.set_option(backend, &SocketOption::GnssFixInterval(interval))
    }

    /// Set how long the receiver tries for a fix, in seconds; 0 means
    /// wait forever.
    pub fn set_fix_retry<B: Backend>(&self, backend: &mut B, interval: u16) -> (r: Result<
        (),
        Error,
    >)
        ensures
            r matches Err(e) ==> e matches Error::Nordic(op, code, _) && op@ == "set_option"@
                && code < 0,
    {
        self.0.set_option(backend, &SocketOption::GnssFixRetry(interval))
    }

    /// Get the current fix interval.
    pub fn get_fix_interval<B: Backend>(&self, backend: &mut B) -> (r: Result<u16, Error>)
        ensures
            r matches Err(e) ==> e matches Error::Nordic(op, code, _) && op@ == "fix_interval"@
                && code < 0,
    {
        let (code, value) = backend.getsockopt_u16(
            self.0.fd,
            crate::raw::NRF_SOL_GNSS,
            crate::raw::NRF_SO_GNSS_FIX_INTERVAL,
        );
        if code < 0 {
            Err(Error::Nordic("fix_interval", code, backend.last_error()))
        } else {
            Ok(value)
        }
    }

    /// Get the current fix retry time.
    pub fn get_fix_retry<B: Backend>(&self, backend: &mut B) -> (r: Result<u16, Error>)
        ensures
            r matches Err(e) ==> e matches Error::Nordic(op, code, _) && op@ == "fix_retry"@
                && code < 0,
    {
        let (code, value) = backend.getsockopt_u16(
            self.0.fd,
            crate::raw::NRF_SOL_GNSS,
            crate::raw::NRF_SO_GNSS_FIX_RETRY,
        );
        if code < 0 {
            Err(Error::Nordic("fix_retry", code, backend.last_error()))
        } else {
            Ok(value)
        }
    }

    /// Select which NMEA sentences the GNSS socket produces.  A default
    /// mask selects none (only position frames).
    pub fn set_nmea_mask<B: Backend>(&self, backend: &mut B, mask: NmeaMask) -> (r: Result<
        (),
        Error,
    >)
        ensures
            r matches Err(e) ==> e matches Error::Nordic(op, code, _) && op@ == "set_option"@
                && code < 0,
    {
        self.0.set_option(backend, &SocketOption::GnssNmeaMask(mask.as_u16()))
    }

    /// Get the current NMEA mask.
    pub fn get_nmea_mask<B: Backend>(&self, backend: &mut B) -> (r: Result<NmeaMask, Error>)
        ensures
            r matches Err(e) ==> e matches Error::Nordic(op, code, _) && op@ == "nmea_mask"@
                && code < 0,
    {
        let (code, value) = backend.getsockopt_u16(
            self.0.fd,
            crate::raw::NRF_SOL_GNSS,
            crate::raw::NRF_SO_GNSS_NMEA_MASK,
        );
        if code < 0 {
            Err(Error::Nordic("nmea_mask", code, backend.last_error()))
        } else {
            Ok(NmeaMask(value))
        }
    }

    /// Get a fix from the GNSS system without blocking; `Ok(None)` when no
    /// frame is ready yet.  The frame read from the socket is decoded as
    /// [`process_fix`] states.
    pub fn get_fix<B: Backend>(&self, backend: &mut B) -> (r: Result<Option<GnssData>, Error>)
        ensures
            r matches Err(e) ==> (e matches Error::Nordic(op, code, _) && op@ == "get_fix"@
                && code < 0) || e == Error::BadDataFormat,
    {
        let (code, data) = backend.recv(self.0.fd, GNSS_FRAME_SIZE, true);
        let err = backend.last_error();
        process_fix(code, err, &data)
    }

    /// Wait for a fix from the GNSS system; blocks until the firmware
    /// delivers a frame, then decodes it as [`process_fix`] states.
    pub fn get_fix_blocking<B: Backend>(&self, backend: &mut B) -> (r: Result<
        Option<GnssData>,
        Error,
    >)
        ensures
            r matches Err(e) ==> (e matches Error::Nordic(op, code, _) && op@ == "get_fix"@
                && code < 0) || e == Error::BadDataFormat,
    {
        let (code, data) = backend.recv(self.0.fd, GNSS_FRAME_SIZE, false);
        let err = backend.last_error();
        process_fix(code, err, &data)
    }

    /// Stop the receiver and close the socket.
    pub fn close<B: Backend>(self, backend: &mut B) {
        let _ = self.stop(backend);
        self.0.close(backend);
    }
}

impl crate::raw::Pollable for GnssSocket {
    /// Get the underlying socket descriptor for this socket.
    fn get_fd(&self) -> i32 {
        self.0.fd
    }
}

} // verus!
