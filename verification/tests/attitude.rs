use quad_flight::attitude::{
    complete_sample, deadband, healthy_accel, wrap_angle_adds_turn, DeadbandSide,
};
use quad_flight::single::{Single, Vector};

fn s(v: f32) -> Single {
    Single { bits: v.to_bits() }
}

fn v(x: f32, y: f32, z: f32) -> Vector {
    Vector::new(s(x), s(y), s(z))
}

#[test]
fn deadband_has_three_sides() {
    let band = s(0.25);
    assert_eq!(deadband(s(0.3), band), DeadbandSide::Above);
    assert_eq!(deadband(s(0.25), band), DeadbandSide::Inside);
    assert_eq!(deadband(s(0.0), band), DeadbandSide::Inside);
    assert_eq!(deadband(s(-0.25), band), DeadbandSide::Inside);
    assert_eq!(deadband(s(-0.3), band), DeadbandSide::Below);
    assert_eq!(deadband(s(f32::NAN), band), DeadbandSide::Inside);
}

#[test]
fn remainders_of_negative_angles_take_another_turn() {
    assert!(wrap_angle_adds_turn(s(-0.1)));
    assert!(!wrap_angle_adds_turn(s(-0.0)));
    assert!(!wrap_angle_adds_turn(s(0.1)));
    assert!(!wrap_angle_adds_turn(s(f32::NAN)));
}

#[test]
fn distorted_gravity_is_kept_from_the_fusion() {
    let accel = v(0.0, 0.1, 0.95);
    let (min, max) = (s(0.9), s(1.1));
    for good in [0.9f32, 1.0, 1.1] {
        assert_eq!(healthy_accel(accel, s(good), min, max), accel);
    }
    for bad in [0.89f32, 1.2, f32::NAN, f32::INFINITY] {
        assert_eq!(healthy_accel(accel, s(bad), min, max), Vector::zeros());
    }
}

#[test]
fn a_sample_needs_both_sensors() {
    let (a, g) = (v(1.0, 2.0, 3.0), v(4.0, 5.0, 6.0));
    assert_eq!(complete_sample(Some(a), Some(g)), Some((a, g)));
    assert_eq!(complete_sample(None, Some(g)), None);
    assert_eq!(complete_sample(Some(a), None), None);
    assert_eq!(complete_sample(None, None), None);
}
