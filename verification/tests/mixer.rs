use quad_flight::mixer::{exceeds_full_range, mix_terms, place_throttle, Mix, Terms};
use quad_flight::single::Single;

fn s(v: f32) -> Single {
    Single { bits: v.to_bits() }
}

fn f(v: Single) -> f32 {
    f32::from_bits(v.bits)
}

fn sum(terms: Terms) -> Single {
    s(f(terms.roll) + f(terms.pitch) + f(terms.yaw))
}

// the mixer with the arithmetic that it leaves to its caller
fn mix_motors(throttle: f32, roll: f32, pitch: f32, yaw: f32) -> (f32, f32, f32, f32) {
    let (fl, fr, rl, rr) = mix_terms(s(roll), s(pitch), s(yaw));
    let mix = Mix { fl: sum(fl), fr: sum(fr), rl: sum(rl), rr: sum(rr) };
    let (lowest, highest) = mix.extremes();
    let range = f(highest) - f(lowest);
    let scale = if exceeds_full_range(s(range)) { 1.0 / range } else { 1.0 };
    let headroom = 1.0 - f(highest) * scale;
    let throttle = f(place_throttle(s(throttle), s(f(lowest) * scale), s(headroom)));
    (
        throttle + f(mix.fl) * scale,
        throttle + f(mix.fr) * scale,
        throttle + f(mix.rl) * scale,
        throttle + f(mix.rr) * scale,
    )
}

fn mix_motors_flix(throttle: f32, roll: f32, pitch: f32, yaw: f32) -> (f32, f32, f32, f32) {
    let terms = mix_terms(s(roll), s(pitch), s(yaw));
    let level = |t: Terms| throttle + f(t.roll) + f(t.pitch) + f(t.yaw);
    let (mut fl, mut fr, mut rl, mut rr) =
        (level(terms.0), level(terms.1), level(terms.2), level(terms.3));
    let (_, highest) = Mix { fl: s(fl), fr: s(fr), rl: s(rl), rr: s(rr) }.extremes();
    if exceeds_full_range(highest) {
        let excess = f(highest) - 1.0;
        fl -= excess;
        fr -= excess;
        rl -= excess;
        rr -= excess;
    }
    (fl, fr, rl, rr)
}

#[test]
fn zero_torque_passes_throttle_through_unchanged() {
    let (fl, fr, rl, rr) = mix_motors(0.5, 0.0, 0.0, 0.0);
    assert_eq!((fl, fr, rl, rr), (0.5, 0.5, 0.5, 0.5));
}

#[test]
fn small_torques_stay_unscaled() {
    let (fl, fr, rl, rr) = mix_motors(0.5, 0.1, 0.05, 0.02);
    assert!((fl - (0.5 + 0.1 - 0.05 + 0.02)).abs() < 1e-6);
    assert!((fr - (0.5 - 0.1 - 0.05 - 0.02)).abs() < 1e-6);
    assert!((rl - (0.5 + 0.1 + 0.05 - 0.02)).abs() < 1e-6);
    assert!((rr - (0.5 - 0.1 + 0.05 + 0.02)).abs() < 1e-6);
}

#[test]
fn large_torques_stay_in_range_and_preserve_ratio() {
    let (fl, fr, rl, rr) = mix_motors(0.5, 2.0, 1.5, 1.0);
    for m in [fl, fr, rl, rr] {
        assert!((0.0..=1.0).contains(&m), "motor out of range: {m}");
    }
    assert!(fl > fr);
    assert!(rl > rr);
}

#[test]
fn desaturation_never_panics_or_produces_out_of_range_motors() {
    let mut roll = -3.0f32;
    while roll <= 3.0 {
        let mut pitch = -3.0f32;
        while pitch <= 3.0 {
            let mut yaw = -3.0f32;
            while yaw <= 3.0 {
                for throttle in [0.0f32, 0.1, 0.5, 0.9, 1.0] {
                    let (fl, fr, rl, rr) = mix_motors(throttle, roll, pitch, yaw);
                    for (name, m) in [("fl", fl), ("fr", fr), ("rl", rl), ("rr", rr)] {
                        assert!(m.is_finite(), "{name} not finite: {m}");
                        assert!(
                            (-1e-4..=1.0 + 1e-4).contains(&m),
                            "{name} out of range at throttle={throttle} roll={roll} pitch={pitch} yaw={yaw}: {m}"
                        );
                    }
                }
                yaw += 0.3;
            }
            pitch += 0.3;
        }
        roll += 0.3;
    }
}

#[test]
fn flix_style_matches_high_side_only_behavior() {
    let (fl, fr, rl, rr) = mix_motors_flix(0.9, 0.5, 0.0, 0.0);
    assert!(fl.max(fr).max(rl).max(rr) <= 1.0 + 1e-6);
    let (_, _, _, rr) = mix_motors_flix(0.1, 0.0, 0.0, -0.5);
    assert!(
        rr < 0.0,
        "low side isn't protected in the old version: rr={rr}"
    );
}

#[test]
fn torques_act_on_their_motors() {
    for (roll, pitch, yaw) in [(0.3f32, -0.2f32, 0.1f32), (1.5, 0.7, -2.5), (0.0, 0.0, 0.0)] {
        let (fl, fr, rl, rr) = mix_terms(s(roll), s(pitch), s(yaw));
        assert_eq!(f(sum(fl)), roll - pitch + yaw);
        assert_eq!(f(sum(fr)), -roll - pitch - yaw);
        assert_eq!(f(sum(rl)), roll + pitch - yaw);
        assert_eq!(f(sum(rr)), -roll + pitch + yaw);
    }
    // whole numbers add up exactly: torques leave the thrust alone
    let (fl, fr, rl, rr) = mix_terms(s(3.0), s(5.0), s(7.0));
    assert_eq!(f(sum(fl)) + f(sum(fr)) + f(sum(rl)) + f(sum(rr)), 0.0);
    assert_eq!(f(sum(fl)) + f(sum(rl)) - f(sum(fr)) - f(sum(rr)), 12.0);
}

#[test]
fn extremes_pass_over_a_nan() {
    let mix = Mix { fl: s(f32::NAN), fr: s(2.0), rl: s(-1.0), rr: s(0.5) };
    let (lowest, highest) = mix.extremes();
    assert_eq!((f(lowest), f(highest)), (-1.0, 2.0));
}

#[test]
fn no_motor_is_told_less_than_nothing() {
    for throttle in [0.0f32, 0.3, 1.0, -5.0, f32::INFINITY] {
        for step in 0..200 {
            let roll = (step as f32 * 0.137).sin() * 3.0;
            let yaw = (step as f32 * 0.311).cos() * 2.0;
            let (fl, fr, rl, rr) = mix_motors(throttle, roll, -yaw, yaw);
            for m in [fl, fr, rl, rr] {
                assert!(m >= 0.0, "{throttle} {roll} {yaw}: {m}");
            }
        }
    }
}

#[test]
fn the_full_range_is_one() {
    assert!(!exceeds_full_range(s(1.0)));
    assert!(exceeds_full_range(s(1.0000001)));
    assert!(!exceeds_full_range(s(f32::NAN)));
}

#[test]
fn throttle_moves_only_as_far_as_needed() {
    // fits already
    assert_eq!(f(place_throttle(s(0.5), s(-0.2), s(0.7))), 0.5);
    // lowest motor would fall below nothing
    assert_eq!(f(place_throttle(s(0.1), s(-0.2), s(0.7))), 0.2);
    // highest motor would pass full level
    assert_eq!(f(place_throttle(s(0.9), s(-0.2), s(0.7))), 0.7);
    // rounding has closed the range
    assert_eq!(f(place_throttle(s(0.9), s(-0.5), s(0.49999997))), 0.5);
    assert_eq!(f(place_throttle(s(0.1), s(-0.5), s(f32::NAN))), 0.5);
}
