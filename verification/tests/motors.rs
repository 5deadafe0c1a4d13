use quad_flight::motors::{
    esc_value, motor_level, BenchAction, BenchTest, THROTTLE_MAX, THROTTLE_MIN, THROTTLE_RANGE,
};
use quad_flight::single::Single;

fn s(v: f32) -> Single {
    Single { bits: v.to_bits() }
}

// the ESC value of a motor level
fn esc(v: f32) -> u16 {
    let level = f32::from_bits(motor_level(s(v)).bits);
    esc_value((level * THROTTLE_RANGE as f32) as u16)
}

#[test]
fn levels_scale_onto_the_esc_range() {
    assert_eq!(THROTTLE_RANGE, THROTTLE_MAX - THROTTLE_MIN);
    assert_eq!(esc(0.0), 100);
    assert_eq!(esc(0.5), 1049);
    assert_eq!(esc(1.0), 1999);
    assert_eq!(esc(-3.0), 100);
    assert_eq!(esc(1.0000001), 1999);
    assert_eq!(esc(f32::INFINITY), 1999);
    assert_eq!(esc(f32::NAN), 100);
}

#[test]
fn the_bench_test_holds_then_ramps_down() {
    let mut test = BenchTest::new();
    assert_eq!(test.next(), BenchAction::Spin { ramp: 100, pause: false });
    for _ in 0..100 {
        assert_eq!(test.next(), BenchAction::Spin { ramp: 100, pause: true });
    }
    for ramp in (0..=100).rev() {
        assert_eq!(test.next(), BenchAction::Spin { ramp, pause: true });
    }
    assert_eq!(test.next(), BenchAction::Off);
    for _ in 0..3 {
        assert_eq!(test.next(), BenchAction::Done);
    }
}
