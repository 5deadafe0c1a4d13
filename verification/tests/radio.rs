use crsf::{LinkStatistics, Packet, PacketAddress, RcChannels};
use quad_flight::crsf_parser::Decoded;
use quad_flight::radio::{
    normalize_axis, normalize_throttle, Controls, FrameReader, Outcome, ReadRequest, Report,
    ThreeToggle, AXIS_SPAN, CHANNEL_MAX, CHANNEL_MID, CHANNEL_MIN, THROTTLE_SPAN,
};

fn channels() -> [u16; 16] {
    [
        172, 1811, 1000, 992, 1792, 191, 992, 1792, 0, 1, 2, 1023, 1024, 2047, 1365, 682,
    ]
}

fn frame(ch: [u16; 16]) -> Vec<u8> {
    Packet::RcChannels(RcChannels(ch)).into_raw(PacketAddress::Controller).data().to_vec()
}

fn statistics() -> Vec<u8> {
    let packet = Packet::LinkStatistics(LinkStatistics {
        uplink_rssi_1: 1,
        uplink_rssi_2: 2,
        uplink_link_quality: 3,
        uplink_snr: 4,
        active_antenna: 5,
        rf_mode: 6,
        uplink_tx_power: 7,
        downlink_rssi: 8,
        downlink_link_quality: 9,
        downlink_snr: 10,
    });
    packet.into_raw(PacketAddress::Receiver).data().to_vec()
}

// checksum by its polynomial, for frames that the crate does not build
fn checksum(bytes: &[u8]) -> u8 {
    let mut crc = 0u8;
    for b in bytes {
        crc ^= b;
        for _ in 0..8 {
            crc = if crc & 0x80 != 0 { (crc << 1) ^ 0xd5 } else { crc << 1 };
        }
    }
    crc
}

fn raw_frame(kind: u8, payload: &[u8]) -> Vec<u8> {
    let mut out = vec![0xc8, payload.len() as u8 + 2, kind];
    out.extend_from_slice(payload);
    out.push(checksum(&out[2..]));
    out
}

// feeds bytes one by one; the report of the last one
fn scan(reader: &mut FrameReader, bytes: &[u8]) -> Report {
    let mut last = Report { outcome: Outcome::Silent, lost_alignment: false };
    for b in bytes {
        assert_eq!(reader.next_read(), ReadRequest::Byte);
        last = reader.step(&[*b]);
    }
    last
}

fn controls_in(report: Report) -> (Controls, bool) {
    match report.outcome {
        Outcome::Controls { controls, changed } => (controls, changed),
        other => panic!("no controls: {other:?}"),
    }
}

#[test]
fn the_checksum_is_the_protocol_s() {
    assert_eq!(checksum(b"123456789"), 0xbc);
    assert_eq!(checksum(b""), 0);
    let bytes = frame(channels());
    assert_eq!(checksum(&bytes[2..25]), bytes[25]);
}

#[test]
fn channel_range_is_the_protocol_s() {
    assert_eq!(CHANNEL_MIN, RcChannels::CHANNEL_VALUE_MIN);
    assert_eq!(CHANNEL_MID, RcChannels::CHANNEL_VALUE_MID);
    assert_eq!(CHANNEL_MAX, RcChannels::CHANNEL_VALUE_MAX);
    assert_eq!(AXIS_SPAN, CHANNEL_MID - CHANNEL_MIN);
    assert_eq!(THROTTLE_SPAN, CHANNEL_MAX - CHANNEL_MIN);
}

#[test]
fn axis_steps_divide_to_the_normalised_axis() {
    for raw in 0..=u16::MAX {
        let want = ((raw as f32 - 992f32) / (992f32 - 172f32)).clamp(-1.0, 1.0);
        assert_eq!(normalize_axis(raw) as f32 / AXIS_SPAN as f32, want, "{raw}");
    }
}

#[test]
fn throttle_steps_divide_to_the_normalised_throttle() {
    for raw in 0..=u16::MAX {
        let want = ((raw as f32 - 172f32) / (1811f32 - 172f32)).clamp(0.0, 1.0);
        assert_eq!(normalize_throttle(raw) as f32 / THROTTLE_SPAN as f32, want, "{raw}");
    }
}

#[test]
fn toggles_switch_at_the_midpoints() {
    assert_eq!(ThreeToggle::from(0), ThreeToggle::Low);
    assert_eq!(ThreeToggle::from(191), ThreeToggle::Low);
    assert_eq!(ThreeToggle::from(590), ThreeToggle::Low);
    assert_eq!(ThreeToggle::from(591), ThreeToggle::Mid);
    assert_eq!(ThreeToggle::from(992), ThreeToggle::Mid);
    assert_eq!(ThreeToggle::from(1391), ThreeToggle::Mid);
    assert_eq!(ThreeToggle::from(1392), ThreeToggle::High);
    assert_eq!(ThreeToggle::from(1792), ThreeToggle::High);
    assert_eq!(ThreeToggle::from(u16::MAX), ThreeToggle::High);
}

#[test]
fn controls_follow_the_channel_order() {
    let c = Controls::from(channels());
    assert_eq!(
        c,
        Controls {
            roll: -820,
            pitch: 819,
            throttle: 828,
            yaw: 0,
            armed: true,
            sb: ThreeToggle::Low,
            sc: ThreeToggle::Mid,
            sd: true,
        }
    );
    // two-way switches are on above the middle only
    let mut ch = channels();
    ch[4] = 992;
    ch[7] = 993;
    let c = Controls::from(ch);
    assert!(!c.armed);
    assert!(c.sd);
}

#[test]
fn scanning_finds_the_first_frame_and_aligns() {
    let mut reader = FrameReader::new();
    let bytes = frame(channels());
    assert_eq!(bytes.len(), 26);
    // noise, then a frame that arrives byte by byte
    assert_eq!(scan(&mut reader, &[0x00, 0x55, 0x13]).outcome, Outcome::Silent);
    let report = scan(&mut reader, &bytes[..25]);
    assert_eq!(report.outcome, Outcome::Silent);
    assert!(!report.lost_alignment);
    let (controls, changed) = controls_in(reader.step(&bytes[25..]));
    assert_eq!(controls, Controls::from(channels()));
    assert!(changed);
    assert_eq!(reader.next_read(), ReadRequest::Header);
}

#[test]
fn aligned_frames_come_whole() {
    let mut reader = FrameReader::new();
    scan(&mut reader, &frame(channels()));

    // the same channels again
    let header = [frame(channels())[0], frame(channels())[1]];
    assert_eq!(FrameReader::body_length(header), Some(24));
    let (_, changed) = controls_in(reader.step(&frame(channels())));
    assert!(!changed);

    let mut other = channels();
    other[15] = 683;
    let (controls, changed) = controls_in(reader.step(&frame(other)));
    assert_eq!(controls, Controls::from(other));
    assert!(changed);
    assert_eq!(reader.next_read(), ReadRequest::Header);
}

#[test]
fn frames_without_controls_keep_alignment() {
    let mut reader = FrameReader::new();
    scan(&mut reader, &frame(channels()));
    assert_eq!(reader.step(&statistics()).outcome, Outcome::Framed);
    assert_eq!(reader.next_read(), ReadRequest::Header);
    // a type that is not decoded
    assert_eq!(reader.step(&raw_frame(0x08, &[1, 2, 3])).outcome, Outcome::Framed);
    assert_eq!(reader.next_read(), ReadRequest::Header);
    // the shortest and the longest legal frame
    assert_eq!(reader.step(&raw_frame(0x99, &[])).outcome, Outcome::Framed);
    assert_eq!(reader.step(&raw_frame(0x99, &[7; 60])).outcome, Outcome::Framed);
    // channels are still remembered
    let (_, changed) = controls_in(reader.step(&frame(channels())));
    assert!(!changed);
}

#[test]
fn a_damaged_frame_loses_alignment() {
    let mut reader = FrameReader::new();
    scan(&mut reader, &frame(channels()));
    let mut bad = frame(channels());
    bad[10] ^= 0x40;
    let report = reader.step(&bad);
    assert_eq!(report, Report { outcome: Outcome::Silent, lost_alignment: true });
    assert_eq!(reader.next_read(), ReadRequest::Byte);
    // the scan that follows loses nothing more
    let report = scan(&mut reader, &frame(channels()));
    assert_eq!(controls_in(report).0, Controls::from(channels()));
    assert!(!report.lost_alignment);
}

#[test]
fn an_illegal_length_loses_alignment() {
    assert_eq!(FrameReader::body_length([0xc8, 1]), None);
    assert_eq!(FrameReader::body_length([0xc8, 2]), Some(2));
    assert_eq!(FrameReader::body_length([0xc8, 62]), Some(62));
    assert_eq!(FrameReader::body_length([0xc8, 63]), None);
    let mut reader = FrameReader::new();
    scan(&mut reader, &frame(channels()));
    let report = reader.step(&[0xc8, 63]);
    assert_eq!(report, Report { outcome: Outcome::Silent, lost_alignment: true });
    assert_eq!(controls_in(scan(&mut reader, &frame(channels()))).0, Controls::from(channels()));
}

#[test]
fn a_failed_read_loses_alignment() {
    let mut reader = FrameReader::new();
    scan(&mut reader, &frame(channels()));
    let report = reader.step(&[]);
    assert_eq!(report, Report { outcome: Outcome::Silent, lost_alignment: true });
}

#[test]
fn a_frame_cut_short_counts_as_damaged() {
    let mut reader = FrameReader::new();
    scan(&mut reader, &frame(channels()));
    let report = reader.step(&raw_frame(0x16, &[0; 5]));
    assert_eq!(report, Report { outcome: Outcome::Silent, lost_alignment: true });
    scan(&mut reader, &frame(channels()));
    let report = reader.step(&raw_frame(0x14, &[0; 8]));
    assert_eq!(report, Report { outcome: Outcome::Silent, lost_alignment: true });
}

#[test]
fn a_false_start_is_passed_over() {
    let mut reader = FrameReader::new();
    // an address with an illegal length, then a frame
    let mut bytes = vec![0xee, 0xff];
    bytes.extend_from_slice(&frame(channels()));
    let report = scan(&mut reader, &bytes);
    assert_eq!(controls_in(report).0, Controls::from(channels()));
}

#[test]
fn decoded_frames_are_taken_note_of() {
    let mut reader = FrameReader::new();
    assert_eq!(reader.accept(Decoded::UnknownType), Outcome::Framed);
    assert_eq!(reader.accept(Decoded::LinkStatistics), Outcome::Framed);
    assert_eq!(reader.accept(Decoded::Damaged), Outcome::Silent);
    let first = reader.accept(Decoded::Channels(channels()));
    assert_eq!(
        first,
        Outcome::Controls { controls: Controls::from(channels()), changed: true }
    );
    let second = reader.accept(Decoded::Channels(channels()));
    assert_eq!(
        second,
        Outcome::Controls { controls: Controls::from(channels()), changed: false }
    );
}

#[test]
fn every_channel_value_survives_packing() {
    let mut reader = FrameReader::new();
    scan(&mut reader, &frame(channels()));
    for base in 0..2048u16 {
        let mut ch = [0u16; 16];
        for (i, c) in ch.iter_mut().enumerate() {
            *c = (base + 131 * i as u16) % 2048;
        }
        let (controls, _) = controls_in(reader.step(&frame(ch)));
        assert_eq!(controls, Controls::from(ch));
    }
}
