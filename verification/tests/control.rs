use quad_flight::control::{ControlPacket, Flags};
use quad_flight::single::Single;

fn s(v: f32) -> Single {
    Single { bits: v.to_bits() }
}

#[test]
fn flags_do_not_disturb_each_other() {
    for byte in 0..=255u8 {
        let mut flags = Flags::from_bytes(byte);
        let (armed, failsafe, overflow) = (flags.armed(), flags.failsafe(), flags.fifo_overflow());
        flags.set_failsafe(!failsafe);
        assert_eq!(flags.armed(), armed);
        assert_eq!(flags.failsafe(), !failsafe);
        assert_eq!(flags.fifo_overflow(), overflow);
        flags.set_failsafe(failsafe);
        assert_eq!(flags.to_bytes(), byte);
        flags.set_armed(!armed);
        assert_eq!(flags.fifo_overflow(), overflow);
        flags.set_fifo_overflow(!overflow);
        assert_eq!(flags.armed(), !armed);
        assert_eq!(flags.fifo_overflow(), !overflow);
    }
}

#[test]
fn control_packets_compare_as_numbers() {
    let a = ControlPacket::new(40, s(0.0), s(0.5), s(-1.0), true);
    let mut b = ControlPacket::new(40, s(-0.0), s(0.5), s(-1.0), false);
    assert!(a.armed());
    assert_ne!(a, b);
    b.set_armed(true);
    assert_eq!(a, b);
    let n = ControlPacket::new(0, s(f32::NAN), s(0.0), s(0.0), false);
    assert_ne!(n, n);
}
