use quad_flight::pid::{Pid, PidStep, PidTerms, NO_ERROR_BITS};
use quad_flight::single::Single;

fn s(v: f32) -> Single {
    Single { bits: v.to_bits() }
}

fn f(v: Single) -> f32 {
    f32::from_bits(v.bits)
}

fn controller() -> Pid {
    Pid::new(s(0.05), s(0.3), s(0.001), s(0.3), s(1.0))
}

fn previous(step: PidStep) -> Option<Option<f32>> {
    match step {
        PidStep::Restart => None,
        PidStep::Advance { previous } => Some(previous.map(f)),
    }
}

// one tick without the derivative filter
fn tick(pid: &mut Pid, error: f32, dt: f32) -> f32 {
    let derivative = match pid.step(s(dt)) {
        PidStep::Restart => 0.0,
        PidStep::Advance { previous: None } => 0.0,
        PidStep::Advance { previous: Some(p) } => (error - f(p)) / dt,
    };
    let rest = f(Pid::retained(s(1.0 - f(pid.leak) * dt)));
    let accumulated = f(pid.integral) * rest + error * dt;
    match pid.update(s(error), s(dt), s(accumulated), s(derivative)) {
        PidTerms::Proportional => f(pid.kp) * error,
        PidTerms::Full { integral, derivative } => {
            f(pid.kp) * error + f(pid.ki) * f(integral) + f(pid.kd) * f(derivative)
        }
    }
}

#[test]
fn a_new_controller_has_no_past() {
    let pid = controller();
    assert_eq!(f32::from_bits(NO_ERROR_BITS).to_bits(), f32::NAN.to_bits());
    assert!(pid.prev_error.is_nan());
    assert_eq!(pid.integral, s(0.0));
    assert_eq!(pid.d_filter, s(0.0));
    assert_eq!(previous(pid.step(s(0.001))), Some(None));
}

#[test]
fn implausible_time_steps_start_over() {
    for dt in [0.0f32, -0.0, -0.1, 0.50001, f32::INFINITY, f32::NEG_INFINITY] {
        let mut pid = controller();
        tick(&mut pid, 1.0, 0.1);
        assert_eq!(previous(pid.step(s(dt))), None);
        assert_eq!(tick(&mut pid, 2.0, dt), 0.05f32 * 2.0);
        assert!(pid.prev_error.is_nan());
        assert_eq!(pid.integral, s(0.0));
    }
    for dt in [f32::MIN_POSITIVE, 0.001, 0.5, f32::NAN] {
        assert_eq!(previous(controller().step(s(dt))), Some(None));
    }
}

#[test]
fn the_integral_stays_within_its_limit() {
    let mut pid = controller();
    for _ in 0..1000 {
        tick(&mut pid, 50.0, 0.1);
        assert!(f(pid.integral) <= 0.3);
    }
    assert_eq!(f(pid.integral), 0.3);
    for _ in 0..1000 {
        tick(&mut pid, -50.0, 0.1);
        assert!(f(pid.integral) >= -0.3);
    }
    assert_eq!(f(pid.integral), -0.3);
}

#[test]
fn extreme_but_finite_calls_leave_a_number() {
    let extremes = [f32::MAX, -f32::MAX, f32::MIN_POSITIVE, 0.0, 1.0, -1e30];
    for leak in [0.0f32, 1.0, f32::MAX, -f32::MAX] {
        for limit in [0.0f32, 0.3, f32::MAX] {
            let mut pid = Pid::new(s(0.05), s(0.3), s(0.001), s(limit), s(leak));
            for error in extremes {
                for dt in [f32::from_bits(1), 0.001, 0.5, 0.25] {
                    tick(&mut pid, error, dt);
                    let integral = f(pid.integral);
                    assert!((-limit..=limit).contains(&integral), "{leak} {limit} {error} {dt}");
                }
            }
        }
    }
}

#[test]
fn a_tick_combines_its_three_terms() {
    let mut pid = controller();
    // first tick: no derivative
    let first = tick(&mut pid, 1.0, 0.1);
    assert!((first - (0.05 + 0.3 * 0.1)).abs() < 1e-6);
    assert_eq!(previous(pid.step(s(0.1))), Some(Some(1.0)));
    // second tick: decayed integral, and an error that rises by one
    let second = tick(&mut pid, 2.0, 0.1);
    let integral = 0.1 * 0.9 + 0.2;
    assert!((second - (0.1 + 0.3 * integral + 0.001 * 10.0)).abs() < 1e-6);
}

#[test]
fn a_reset_is_a_fresh_start() {
    let mut pid = controller();
    tick(&mut pid, 1.0, 0.1);
    tick(&mut pid, 3.0, 0.1);
    pid.reset();
    let fresh = controller();
    assert_eq!(pid.integral, fresh.integral);
    assert_eq!(pid.d_filter, fresh.d_filter);
    assert_eq!(pid.prev_error.bits, fresh.prev_error.bits);
    assert_eq!((pid.kp, pid.ki, pid.kd), (fresh.kp, fresh.ki, fresh.kd));
    assert_eq!((pid.integral_limit, pid.leak), (fresh.integral_limit, fresh.leak));
}

#[test]
fn decay_never_turns_the_integral_round() {
    assert_eq!(f(Pid::retained(s(0.9))), 0.9);
    assert_eq!(f(Pid::retained(s(-0.5))), 0.0);
    assert_eq!(f(Pid::retained(s(f32::NAN))), 0.0);
}
