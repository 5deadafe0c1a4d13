use quad_flight::flight::{
    yaw_steps_active, yaw_stick_active, Action, ArmEdge, FlightState, LinkInput, LinkStatus,
    Steering, ThrottleZone, STALE_AFTER_US, YAW_STICK_ACTIVE_BITS,
};
use quad_flight::radio::{AXIS_SPAN, THROTTLE_SPAN};
use quad_flight::single::{Single, Vector};
use quad_flight::tuning::{Drone, RatePids};

fn s(v: f32) -> Single {
    Single { bits: v.to_bits() }
}

fn input(armed: bool, received_at: u64) -> Option<LinkInput> {
    Some(LinkInput { armed, received_at })
}

fn steer(zone: ThrottleZone, yaw_active: bool, yaw: f32) -> Option<Steering> {
    Some(Steering { zone, yaw_active, actual_yaw: s(yaw) })
}

fn target(action: Action) -> Option<f32> {
    match action {
        Action::Off | Action::Keep => None,
        Action::Fly { target_yaw, .. } => Some(f32::from_bits(target_yaw.bits)),
    }
}

fn zone_of(throttle: f32) -> ThrottleZone {
    if throttle < 0.05 {
        ThrottleZone::Idle
    } else if throttle < 0.15 {
        ThrottleZone::NearGround
    } else {
        ThrottleZone::Flying
    }
}

#[test]
fn throttle_zones_agree_with_the_fractions() {
    for percent in 0..=255u8 {
        assert_eq!(ThrottleZone::of_percent(percent), zone_of(percent as f32 / 100.0));
    }
    for steps in 0..=THROTTLE_SPAN {
        assert_eq!(
            ThrottleZone::of_steps(steps),
            zone_of(steps as f32 / THROTTLE_SPAN as f32),
            "{steps}"
        );
    }
}

#[test]
fn yaw_stick_steers_from_a_tenth_on() {
    assert_eq!(f32::from_bits(YAW_STICK_ACTIVE_BITS), 0.1);
    for yaw in -(AXIS_SPAN as i16)..=AXIS_SPAN as i16 {
        let stick = yaw as f32 / AXIS_SPAN as f32;
        assert_eq!(yaw_steps_active(yaw), stick.abs() >= 0.1, "{yaw}");
        assert_eq!(yaw_stick_active(s(stick)), stick.abs() >= 0.1, "{yaw}");
    }
    assert!(!yaw_stick_active(s(f32::NAN)));
    assert!(yaw_stick_active(s(f32::NEG_INFINITY)));
}

#[test]
fn no_input_is_neither_fresh_nor_armed() {
    let mut state = FlightState::new();
    let status = state.observe_link(None, 1_000);
    assert_eq!(status, LinkStatus { fresh: false, armed: false, edge: None });
    assert!(status.stop_motors());
    assert_eq!(target(state.decide(steer(ThrottleZone::Flying, false, 1.0))), None);
}

#[test]
fn input_goes_stale_after_half_a_second() {
    let mut state = FlightState::new();
    let status = state.observe_link(input(true, 10), 10 + STALE_AFTER_US - 1);
    assert_eq!(status, LinkStatus { fresh: true, armed: true, edge: Some(ArmEdge::Armed) });
    assert!(!status.stop_motors());
    assert!(target(state.decide(steer(ThrottleZone::Flying, false, 1.0))).is_some());
    let status = state.observe_link(input(true, 10), 10 + STALE_AFTER_US);
    assert_eq!(status, LinkStatus { fresh: false, armed: false, edge: Some(ArmEdge::Disarmed) });
    assert!(status.stop_motors());
    assert_eq!(target(state.decide(steer(ThrottleZone::Flying, false, 1.0))), None);
}

#[test]
fn disarmed_input_keeps_the_motors_off() {
    let mut state = FlightState::new();
    let status = state.observe_link(input(false, 0), 0);
    assert_eq!(status, LinkStatus { fresh: true, armed: false, edge: None });
    assert_eq!(target(state.decide(steer(ThrottleZone::Flying, true, 1.0))), None);
}

#[test]
fn arming_is_reported_once() {
    let mut state = FlightState::new();
    assert_eq!(state.observe_link(input(true, 0), 0).edge, Some(ArmEdge::Armed));
    assert_eq!(state.observe_link(input(true, 1), 1).edge, None);
    assert_eq!(state.observe_link(input(false, 2), 2).edge, Some(ArmEdge::Disarmed));
    assert_eq!(state.observe_link(input(false, 3), 3).edge, None);
    assert_eq!(state.observe_link(input(true, 4), 4).edge, Some(ArmEdge::Armed));
}

#[test]
fn arming_starts_the_rate_controllers_afresh() {
    let mut state = FlightState::new();
    let mut pids = RatePids::new(Drone::Brushed);
    let spoil = |pids: &mut RatePids| {
        for pid in [&mut pids.roll, &mut pids.pitch, &mut pids.yaw] {
            pid.update(s(1.0), s(0.1), s(0.2), s(0.5));
        }
    };
    spoil(&mut pids);
    // no input, then disarmed input: nothing happens to them
    state.observe_link_and_reset(None, 0, &mut pids);
    state.observe_link_and_reset(input(false, 1), 1, &mut pids);
    assert_eq!(pids.roll.integral, s(0.2));
    let status = state.observe_link_and_reset(input(true, 2), 2, &mut pids);
    assert_eq!(status, LinkStatus { fresh: true, armed: true, edge: Some(ArmEdge::Armed) });
    for pid in [pids.roll, pids.pitch, pids.yaw] {
        assert_eq!((pid.integral, pid.d_filter), (s(0.0), s(0.0)));
        assert!(pid.prev_error.is_nan());
    }
    // flying on and disarming leave them alone
    spoil(&mut pids);
    state.observe_link_and_reset(input(true, 3), 3, &mut pids);
    let status = state.observe_link_and_reset(input(false, 4), 4, &mut pids);
    assert_eq!(status.edge, Some(ArmEdge::Disarmed));
    assert_eq!(pids.yaw.integral, s(0.2));
}

#[test]
fn idle_throttle_keeps_the_motors_off() {
    let mut state = FlightState::new();
    state.observe_link(input(true, 0), 0);
    assert_eq!(target(state.decide(steer(ThrottleZone::Idle, false, 1.0))), None);
    // the heading follows all the same
    assert_eq!(target(state.decide(steer(ThrottleZone::NearGround, false, 2.0))), Some(2.0));
}

#[test]
fn heading_is_held_while_flying_straight() {
    let mut state = FlightState::new();
    state.observe_link(input(true, 0), 0);
    assert_eq!(target(state.decide(steer(ThrottleZone::Flying, false, 0.5))), Some(0.5));
    for i in 1..50u64 {
        state.observe_link(input(true, i), i);
        assert_eq!(target(state.decide(steer(ThrottleZone::Flying, false, i as f32))), Some(0.5));
    }
    // the stick takes it along
    assert_eq!(target(state.decide(steer(ThrottleZone::Flying, true, -1.0))), Some(-1.0));
    assert_eq!(target(state.decide(steer(ThrottleZone::Flying, false, 9.0))), Some(-1.0));
    // and so does low throttle
    assert_eq!(target(state.decide(steer(ThrottleZone::NearGround, false, 3.0))), Some(3.0));
}

#[test]
fn arming_again_forgets_the_heading() {
    let mut state = FlightState::new();
    state.observe_link(input(true, 0), 0);
    state.decide(steer(ThrottleZone::Flying, false, 0.5));
    state.observe_link(input(false, 1), 1);
    // ticks without an attitude latch nothing and leave the motors alone
    state.observe_link(input(true, 2), 2);
    assert!(matches!(state.decide(None), Action::Keep));
    state.observe_link(input(true, 3), 3);
    assert_eq!(target(state.decide(steer(ThrottleZone::Flying, false, 2.5))), Some(2.5));
}

#[test]
fn without_an_attitude_only_disarming_acts() {
    let mut state = FlightState::new();
    assert!(matches!(state.decide(None), Action::Off));
    state.observe_link(input(true, 0), 0);
    assert!(matches!(state.decide(None), Action::Keep));
    state.observe_link(input(true, 0), STALE_AFTER_US);
    assert!(matches!(state.decide(None), Action::Off));
}

#[test]
fn yaw_stick_adds_to_the_rate() {
    let mut state = FlightState::new();
    state.observe_link(input(true, 0), 0);
    for active in [false, true] {
        match state.decide(steer(ThrottleZone::Flying, active, 0.0)) {
            Action::Fly { yaw_feedforward, .. } => assert_eq!(yaw_feedforward, active),
            other => panic!("{other:?}"),
        }
    }
}

#[test]
fn telemetry_reports_the_tick() {
    let degrees = (s(1.0), s(2.0), s(3.0));
    let lost = LinkStatus { fresh: false, armed: false, edge: None };
    let t = lost.telemetry(degrees, None);
    assert!(!t.armed() && t.failsafe() && !t.fifo_overflow());
    assert_eq!(t.motors, (0, 0, 0, 0));
    assert_eq!((t.roll, t.pitch, t.yaw), degrees);

    let flying = LinkStatus { fresh: true, armed: true, edge: None };
    let t = flying.telemetry(degrees, Some((1, 2, 3, 4)));
    assert!(t.armed() && !t.failsafe());
    assert_eq!(t.motors, (1, 2, 3, 4));

    let v = |x: f32| Vector::new(s(x), s(x + 1.0), s(x + 2.0));
    let t = flying.telemetry_verbose(
        degrees,
        Some(((1, 2, 3, 4), v(1.0))),
        v(2.0),
        v(3.0),
        s(0.001),
        v(4.0),
    );
    assert_eq!((t.torques, t.gyro, t.gyro_bias, t.accel), (v(1.0), v(2.0), v(3.0), v(4.0)));
    assert_eq!(t.dt, s(0.001));
    let t = lost.telemetry_verbose(degrees, None, v(2.0), v(3.0), s(0.001), v(4.0));
    assert_eq!(t.torques, Vector::zeros());
    assert_eq!(t.motors, (0, 0, 0, 0));
    assert!(t.failsafe());
}
