//! Tests for the GNSS frame decoder and the NMEA/delete masks.

use nrfxlib::gnss::process_fix;
use nrfxlib::gnss::DeleteField;
use nrfxlib::gnss::DeleteMask;
use nrfxlib::gnss::GnssData;
use nrfxlib::gnss::NmeaField;
use nrfxlib::gnss::NmeaMask;
use nrfxlib::gnss::GNSS_FRAME_SIZE;
use nrfxlib::Error;

fn empty_frame(data_id: u8) -> Vec<u8> {
    let mut f = vec![0u8; GNSS_FRAME_SIZE];
    f[0] = data_id;
    f
}

#[test]
fn zero_count_means_no_frame() {
    let frame: Vec<u8> = Vec::new();
    assert_eq!(process_fix(0, 0, &frame), Ok(None));
}

#[test]
fn try_again_errno_means_no_frame() {
    let frame: Vec<u8> = Vec::new();
    assert_eq!(process_fix(-1, 35, &frame), Ok(None));
}

#[test]
fn other_negative_count_reports_backend_failure() {
    let frame: Vec<u8> = Vec::new();
    assert_eq!(
        process_fix(-5, 9, &frame),
        Err(Error::Nordic("get_fix", -5, 9))
    );
}

#[test]
fn unknown_discriminant_is_a_format_error() {
    let frame = empty_frame(7);
    assert_eq!(
        process_fix(frame.len() as i32, 0, &frame),
        Err(Error::BadDataFormat)
    );
}

#[test]
fn short_buffer_is_a_format_error() {
    let frame = vec![1u8; 10];
    assert_eq!(
        process_fix(10, 0, &frame),
        Err(Error::BadDataFormat)
    );
}

#[test]
fn nmea_text_length_stops_at_embedded_nul() {
    // A text frame with an ASCII sentence followed by an embedded NUL
    // decodes to a record whose length stops at the NUL, excluding it.
    let mut frame = empty_frame(2);
    let text = b"$GPGGA,120000.00,5321.90,N";
    frame[8..8 + text.len()].copy_from_slice(text);
    frame[8 + text.len()] = 0; // embedded terminator
    for i in (8 + text.len() + 1)..(8 + 83) {
        frame[i] = b'x'; // junk past the terminator is ignored
    }
    match process_fix(frame.len() as i32, 0, &frame) {
        Ok(Some(GnssData::Nmea { buffer, length })) => {
            assert_eq!(length, text.len());
            assert_eq!(&buffer[..length], &text[..]);
            assert_eq!(buffer.len(), 83);
        }
        other => panic!("expected an NMEA record, got {:?}", other),
    }
}

#[test]
fn nmea_without_terminator_has_length_zero() {
    let mut frame = empty_frame(2);
    for i in 8..(8 + 83) {
        frame[i] = b'a';
    }
    match process_fix(frame.len() as i32, 0, &frame) {
        Ok(Some(GnssData::Nmea { length, .. })) => assert_eq!(length, 0),
        other => panic!("expected an NMEA record, got {:?}", other),
    }
}

#[test]
fn nmea_with_invalid_utf8_is_a_format_error() {
    let mut frame = empty_frame(2);
    frame[8] = b'$';
    frame[9] = 0xc3; // leading byte of a 2-byte sequence...
    frame[10] = 0x28; // ...followed by a non-continuation byte
    frame[11] = b'\r';
    assert_eq!(
        process_fix(frame.len() as i32, 0, &frame),
        Err(Error::BadDataFormat)
    );
    // A stray continuation byte is ill-formed too.
    let mut frame = empty_frame(2);
    frame[8] = 0xbf;
    frame[9] = b'\n';
    assert_eq!(
        process_fix(frame.len() as i32, 0, &frame),
        Err(Error::BadDataFormat)
    );
}

#[test]
fn nmea_with_valid_multibyte_utf8_decodes() {
    // Well-formed text need not be ASCII: a two-byte scalar passes.
    let mut frame = empty_frame(2);
    frame[8] = b'$';
    frame[9] = 0xc3;
    frame[10] = 0xa9;
    frame[11] = b'\r';
    match process_fix(frame.len() as i32, 0, &frame) {
        Ok(Some(GnssData::Nmea { buffer, length })) => {
            assert_eq!(length, 3);
            assert_eq!(&buffer[..3], &[b'$', 0xc3, 0xa9]);
        }
        other => panic!("expected an NMEA record, got {:?}", other),
    }
}

#[test]
fn nmea_rejects_overlong_and_surrogate_encodings() {
    // Overlong two-byte encoding of '/'.
    let mut frame = empty_frame(2);
    frame[8] = 0xc0;
    frame[9] = 0xaf;
    frame[10] = b'\n';
    assert_eq!(
        process_fix(frame.len() as i32, 0, &frame),
        Err(Error::BadDataFormat)
    );
    // A surrogate codepoint, encoded as three bytes.
    let mut frame = empty_frame(2);
    frame[8] = 0xed;
    frame[9] = 0xa0;
    frame[10] = 0x80;
    frame[11] = b'\n';
    assert_eq!(
        process_fix(frame.len() as i32, 0, &frame),
        Err(Error::BadDataFormat)
    );
    // Four-byte scalars up to the Unicode maximum are accepted.
    let mut frame = empty_frame(2);
    frame[8..12].copy_from_slice(&[0xf4, 0x8f, 0xbf, 0xbf]);
    frame[12] = b'\n';
    match process_fix(frame.len() as i32, 0, &frame) {
        Ok(Some(GnssData::Nmea { length, .. })) => assert_eq!(length, 4),
        other => panic!("expected an NMEA record, got {:?}", other),
    }
}

#[test]
fn position_frame_fields_are_copied_from_their_offsets() {
    let mut frame = empty_frame(1);
    // latitude double bits at offset 8, little-endian
    frame[8..16].copy_from_slice(&0x4049_0FDB_1234_5678u64.to_le_bytes());
    // longitude at 16
    frame[16..24].copy_from_slice(&0xC000_0000_0000_0001u64.to_le_bytes());
    // altitude float bits at 24
    frame[24..28].copy_from_slice(&0x42C8_0000u32.to_le_bytes());
    // datetime at 40: year, month, day, hour, minute, seconds, pad, ms
    frame[40..42].copy_from_slice(&2021u16.to_le_bytes());
    frame[42] = 6;
    frame[43] = 28;
    frame[44] = 12;
    frame[45] = 34;
    frame[46] = 56;
    frame[48..50].copy_from_slice(&789u16.to_le_bytes());
    // flags at 68
    frame[68] = 0x03;
    // first satellite slot at 70: sv, signal, cn0, elevation, azimuth, flags
    frame[70..72].copy_from_slice(&17u16.to_le_bytes());
    frame[72] = 1;
    frame[74..76].copy_from_slice(&432u16.to_le_bytes());
    frame[76..78].copy_from_slice(&(-45i16).to_le_bytes());
    frame[78..80].copy_from_slice(&270u16.to_le_bytes());
    frame[80] = 0x05;
    match process_fix(frame.len() as i32, 0, &frame) {
        Ok(Some(GnssData::Position(p))) => {
            assert_eq!(p.latitude_bits, 0x4049_0FDB_1234_5678);
            assert_eq!(p.longitude_bits, 0xC000_0000_0000_0001);
            assert_eq!(p.altitude_bits, 0x42C8_0000);
            assert_eq!(p.datetime.year, 2021);
            assert_eq!(p.datetime.month, 6);
            assert_eq!(p.datetime.day, 28);
            assert_eq!(p.datetime.hour, 12);
            assert_eq!(p.datetime.minute, 34);
            assert_eq!(p.datetime.seconds, 56);
            assert_eq!(p.datetime.ms, 789);
            assert_eq!(p.flags, 0x03);
            assert_eq!(p.satellites.len(), 12);
            assert_eq!(p.satellites[0].sv, 17);
            assert_eq!(p.satellites[0].signal, 1);
            assert_eq!(p.satellites[0].cn0, 432);
            assert_eq!(p.satellites[0].elevation, -45);
            assert_eq!(p.satellites[0].azimuth, 270);
            assert_eq!(p.satellites[0].flags, 0x05);
            assert_eq!(p.satellites[11].sv, 0);
        }
        other => panic!("expected a position record, got {:?}", other),
    }
}

#[test]
fn fix_validity_follows_the_flag_bit() {
    // Decode succeeds either way; only the flag bit decides validity.
    let mut frame = empty_frame(1);
    frame[68] = 0x02; // valid bit clear, another bit set
    let invalid = process_fix(frame.len() as i32, 0, &frame)
        .unwrap()
        .unwrap();
    assert!(!invalid.is_valid());
    frame[68] = 0x01;
    let valid = process_fix(frame.len() as i32, 0, &frame).unwrap().unwrap();
    assert!(valid.is_valid());
}

#[test]
fn non_position_frames_are_never_a_valid_fix() {
    let mut frame = empty_frame(2);
    frame[8] = b'$';
    frame[9] = b'\r';
    let nmea = process_fix(frame.len() as i32, 0, &frame).unwrap().unwrap();
    assert!(!nmea.is_valid());
    let frame = empty_frame(3);
    let agps = process_fix(frame.len() as i32, 0, &frame).unwrap().unwrap();
    assert!(!agps.is_valid());
}

#[test]
fn agps_frame_reads_its_three_masks() {
    let mut frame = empty_frame(3);
    frame[8..12].copy_from_slice(&0xAABB_CCDDu32.to_le_bytes());
    frame[12..16].copy_from_slice(&0x0102_0304u32.to_le_bytes());
    frame[16..20].copy_from_slice(&0x0000_0031u32.to_le_bytes());
    match process_fix(frame.len() as i32, 0, &frame) {
        Ok(Some(GnssData::Agps(a))) => {
            assert_eq!(a.sv_mask_ephe, 0xAABB_CCDD);
            assert_eq!(a.sv_mask_alm, 0x0102_0304);
            assert_eq!(a.data_flags, 0x31);
        }
        other => panic!("expected an assistance record, got {:?}", other),
    }
}

#[test]
fn nmea_mask_sets_and_clears_bits() {
    let m = NmeaMask::new();
    assert_eq!(m.as_u16(), 0);
    let m = m.set(NmeaField::GpsFixData).set(NmeaField::SatellitesInView);
    assert_eq!(m.as_u16(), 1 | 8);
    let m = m.clear(NmeaField::GpsFixData);
    assert_eq!(m.as_u16(), 8);
    let all = NmeaMask::new()
        .set(NmeaField::GpsFixData)
        .set(NmeaField::LatLongTime)
        .set(NmeaField::DopAndActiveSatellites)
        .set(NmeaField::SatellitesInView)
        .set(NmeaField::RecommendedMinimumSpecificFixData);
    assert_eq!(all.as_u16(), 31);
}

#[test]
fn delete_mask_sets_and_clears_bits() {
    let m = DeleteMask::new();
    assert_eq!(m.as_u32(), 0);
    let m = m
        .set(DeleteField::Ephemerides)
        .set(DeleteField::LastGoodFix)
        .set(DeleteField::LocalClockFrequencyOffset);
    assert_eq!(m.as_u32(), 1 | 8 | 128);
    let m = m.clear(DeleteField::LastGoodFix);
    assert_eq!(m.as_u32(), 1 | 128);
}
