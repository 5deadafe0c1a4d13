use quad_flight::pid::PidTerms;
use quad_flight::single::Single;
use quad_flight::tuning::{Drone, RatePids};

fn f(v: Single) -> f32 {
    f32::from_bits(v.bits)
}

#[test]
fn gains_are_as_flown() {
    let p = RatePids::new(Drone::Brushed);
    assert_eq!((f(p.roll.kp), f(p.roll.ki), f(p.roll.kd)), (0.05, 0.3, 0.001));
    assert_eq!((f(p.pitch.kp), f(p.pitch.ki), f(p.pitch.kd)), (0.05, 0.3, 0.001));
    assert_eq!((f(p.yaw.kp), f(p.yaw.ki), f(p.yaw.kd)), (0.3, 0.05, 0.001));
    let p = RatePids::new(Drone::Brushless);
    assert_eq!((f(p.roll.kp), f(p.roll.ki), f(p.roll.kd)), (0.05, 0.0, 0.0));
    assert_eq!((f(p.yaw.kp), f(p.yaw.ki), f(p.yaw.kd)), (0.3, 0.0, 0.0));
    for pid in [p.roll, p.pitch, p.yaw] {
        assert_eq!((f(pid.integral_limit), f(pid.leak)), (0.3, 1.0));
    }
}

#[test]
fn arming_resets_every_controller() {
    let mut p = RatePids::new(Drone::Brushed);
    let one = Single { bits: 1f32.to_bits() };
    let dt = Single { bits: 0.1f32.to_bits() };
    for pid in [&mut p.roll, &mut p.pitch, &mut p.yaw] {
        let terms = pid.update(one, dt, one, one);
        assert!(matches!(terms, PidTerms::Full { .. }));
        assert_eq!(f(pid.integral), 0.3);
    }
    p.reset();
    for pid in [p.roll, p.pitch, p.yaw] {
        assert_eq!(f(pid.integral), 0.0);
        assert!(pid.prev_error.is_nan());
    }
}
