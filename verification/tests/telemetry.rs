use quad_flight::single::{Single, Vector};
use quad_flight::{telemetry, telemetry_verbose};

fn s(v: f32) -> Single {
    Single { bits: v.to_bits() }
}

fn v(x: f32, y: f32, z: f32) -> Vector {
    Vector::new(s(x), s(y), s(z))
}

fn short(armed: bool, failsafe: bool) -> telemetry::TelemetryPacket {
    telemetry::TelemetryPacket::new(s(0.0), s(0.0), s(0.0), (0, 0, 0, 0), armed, failsafe)
}

fn long(armed: bool, failsafe: bool) -> telemetry_verbose::TelemetryPacket {
    telemetry_verbose::TelemetryPacket::new(
        s(0.0),
        s(0.0),
        s(0.0),
        (0, 0, 0, 0),
        armed,
        failsafe,
        v(0.0, 0.0, 0.0),
        v(0.0, 0.0, 0.0),
        v(0.0, 0.0, 0.0),
        s(0.0),
        v(0.0, 0.0, 0.0),
    )
}

#[test]
fn test_telemetry_packet_roundtrip() {
    let pkt = telemetry::TelemetryPacket::new(
        s(12.5),
        s(-3.25),
        s(180.0),
        (100, 200, 300, 400),
        true,
        false,
    );
    let bytes = pkt.to_bytes();
    assert_eq!(telemetry::TelemetryPacket::from_bytes(&bytes), Some(pkt));
}

#[test]
fn test_telemetry_packet_roundtrip_verbose() {
    let pkt = telemetry_verbose::TelemetryPacket::new(
        s(12.5),
        s(-3.25),
        s(180.0),
        (100, 200, 300, 400),
        true,
        false,
        v(0.1, -0.2, 0.3),
        v(0.4, -0.5, 0.6),
        v(0.01, -0.02, 0.03),
        s(0.002),
        v(0.0, 0.0, 1.0),
    );
    let bytes = pkt.to_bytes();
    assert_eq!(telemetry_verbose::TelemetryPacket::from_bytes(&bytes), Some(pkt));
}

#[test]
fn test_telemetry_packet_rejects_bad_magic() {
    let mut bytes = short(false, false).to_bytes();
    bytes[0] = b'X';
    assert_eq!(telemetry::TelemetryPacket::from_bytes(&bytes), None);

    let mut bytes = long(false, false).to_bytes();
    bytes[0] = b'X';
    assert_eq!(telemetry_verbose::TelemetryPacket::from_bytes(&bytes), None);
}

#[test]
fn test_telemetry_packet_rejects_short_buffer() {
    let bytes = short(false, false).to_bytes();
    assert_eq!(
        telemetry::TelemetryPacket::from_bytes(&bytes[..telemetry::TELEMETRY_SIZE - 1]),
        None
    );

    let bytes = long(false, false).to_bytes();
    assert_eq!(
        telemetry_verbose::TelemetryPacket::from_bytes(
            &bytes[..telemetry_verbose::TELEMETRY_SIZE - 1]
        ),
        None
    );
}

#[test]
fn test_telemetry_packet_armed_and_failsafe() {
    let pkt = short(true, true);
    assert!(pkt.armed());
    assert!(pkt.failsafe());
    assert!(!pkt.fifo_overflow());

    let pkt = long(true, true);
    assert!(pkt.armed());
    assert!(pkt.failsafe());
    assert!(!pkt.fifo_overflow());
}

#[test]
fn test_telemetry_packet_set_fifo_overflow() {
    let mut pkt = short(true, false);
    assert!(!pkt.fifo_overflow());
    pkt.set_fifo_overflow(true);
    assert!(pkt.fifo_overflow());
    // doesn't disturb the other flags
    assert!(pkt.armed());
    assert!(!pkt.failsafe());
    let bytes = pkt.to_bytes();
    assert_eq!(telemetry::TelemetryPacket::from_bytes(&bytes), Some(pkt));

    let mut pkt = long(true, false);
    assert!(!pkt.fifo_overflow());
    pkt.set_fifo_overflow(true);
    assert!(pkt.fifo_overflow());
    assert!(pkt.armed());
    assert!(!pkt.failsafe());
    let bytes = pkt.to_bytes();
    assert_eq!(telemetry_verbose::TelemetryPacket::from_bytes(&bytes), Some(pkt));
}

#[test]
fn short_layout_is_as_documented() {
    let pkt = telemetry::TelemetryPacket::new(
        s(1.0),
        s(-2.0),
        s(0.5),
        (0x0102, 0x0304, 0x0506, 0x0708),
        true,
        true,
    );
    let want: [u8; 25] = [
        b'T', b'E', b'L', b'M', 0x3f, 0x80, 0, 0, 0xc0, 0, 0, 0, 0x3f, 0, 0, 0, 1, 2, 3, 4, 5, 6, 7,
        8, 3,
    ];
    assert_eq!(pkt.to_bytes(), want);
}

#[test]
fn long_layout_starts_with_the_short_one() {
    let pkt = telemetry_verbose::TelemetryPacket::new(
        s(1.5),
        s(2.5),
        s(3.5),
        (1, 2, 3, 4),
        false,
        true,
        v(1.0, 2.0, 3.0),
        v(4.0, 5.0, 6.0),
        v(7.0, 8.0, 9.0),
        s(0.25),
        v(10.0, 11.0, 12.0),
    );
    let bytes = pkt.to_bytes();
    assert_eq!(bytes.len(), 77);
    let base =
        telemetry::TelemetryPacket::new(s(1.5), s(2.5), s(3.5), (1, 2, 3, 4), false, true);
    assert_eq!(&bytes[..25], &base.to_bytes()[..]);
    let mut at = 25;
    for x in [1.0f32, 2.0, 3.0, 4.0, 5.0, 6.0, 7.0, 8.0, 9.0, 0.25, 10.0, 11.0, 12.0] {
        assert_eq!(&bytes[at..at + 4], &x.to_be_bytes()[..]);
        at += 4;
    }
    assert_eq!(at, 77);
}

#[test]
fn bytes_behind_a_packet_do_not_matter() {
    let pkt = short(true, false);
    let mut buf = pkt.to_bytes().to_vec();
    buf.push(0xaa);
    assert_eq!(telemetry::TelemetryPacket::from_bytes(&buf), Some(pkt));
    // decoding and encoding again gives the bytes back
    let back = telemetry::TelemetryPacket::from_bytes(&buf).unwrap();
    assert_eq!(&back.to_bytes()[..], &buf[..25]);
}

#[test]
fn a_nan_reading_survives_the_wire() {
    let pkt =
        telemetry::TelemetryPacket::new(s(f32::NAN), s(0.0), s(0.0), (0, 0, 0, 0), false, false);
    let back = telemetry::TelemetryPacket::from_bytes(&pkt.to_bytes()).unwrap();
    assert_eq!(back.roll.bits, f32::NAN.to_bits());
    // but compares unequal, as the number does
    assert_ne!(back, pkt);
}
