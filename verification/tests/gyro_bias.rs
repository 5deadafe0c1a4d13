use quad_flight::gyro_bias::{
    BiasSeeder, BiasTracker, Reading, SeedOutcome, BOOT_SAMPLES, LANDED_ACCEL_TOLERANCE_BITS,
    LANDED_DEBOUNCE_US, STDDEV_REJECT_BITS, STILL_ARMED_BITS, STILL_DISARMED_BITS,
};
use quad_flight::single::{Single, Vector};

fn s(v: f32) -> Single {
    Single { bits: v.to_bits() }
}

fn v(x: f32) -> Vector {
    Vector::new(s(x), s(x), s(x))
}

fn still(now: u64, learned: f32) -> Reading {
    Reading {
        armed: false,
        accel_deviation: s(0.01),
        gyro_norm: s(0.01),
        now,
        learned: v(learned),
    }
}

#[test]
fn thresholds_are_as_documented() {
    assert_eq!(f32::from_bits(LANDED_ACCEL_TOLERANCE_BITS), 0.1);
    assert_eq!(f32::from_bits(STILL_ARMED_BITS), 0.5);
    assert_eq!(f32::from_bits(STILL_DISARMED_BITS), 0.05);
    assert_eq!(f32::from_bits(STDDEV_REJECT_BITS), 0.05);
}

#[test]
fn bias_is_learned_after_two_seconds_at_rest() {
    let mut tracker = BiasTracker::new_seeded(v(1.0));
    assert_eq!(tracker.bias(), v(1.0));
    assert_eq!(tracker.update(still(100, 2.0)), v(1.0));
    assert_eq!(tracker.update(still(99 + LANDED_DEBOUNCE_US, 3.0)), v(1.0));
    assert_eq!(tracker.update(still(100 + LANDED_DEBOUNCE_US, 4.0)), v(4.0));
    assert_eq!(tracker.update(still(101 + LANDED_DEBOUNCE_US, 5.0)), v(5.0));
    assert_eq!(tracker.bias(), v(5.0));
}

#[test]
fn motion_starts_the_wait_again() {
    let mut tracker = BiasTracker::new_seeded(v(0.0));
    tracker.update(still(0, 1.0));
    let moved = Reading { gyro_norm: s(0.2), ..still(1_000_000, 1.0) };
    assert_eq!(tracker.update(moved), v(0.0));
    assert_eq!(tracker.update(still(2_000_000, 1.0)), v(0.0));
    assert_eq!(tracker.update(still(3_999_999, 1.0)), v(0.0));
    assert_eq!(tracker.update(still(4_000_000, 1.0)), v(1.0));
}

#[test]
fn stillness_is_judged_by_the_arm_switch() {
    let long_after = 10 * LANDED_DEBOUNCE_US;
    let learns = |reading: Reading| {
        let mut tracker = BiasTracker { bias: v(0.0), landed_since: Some(0) };
        tracker.update(reading) == v(1.0)
    };
    let base = still(long_after, 1.0);
    assert!(learns(base));
    assert!(!learns(Reading { gyro_norm: s(0.05), ..base }));
    assert!(learns(Reading { gyro_norm: s(0.05), armed: true, ..base }));
    assert!(!learns(Reading { gyro_norm: s(0.5), armed: true, ..base }));
    assert!(!learns(Reading { accel_deviation: s(0.1), ..base }));
    assert!(!learns(Reading { accel_deviation: s(-0.1), ..base }));
    assert!(learns(Reading { accel_deviation: s(-0.09), ..base }));
    assert!(!learns(Reading { accel_deviation: s(f32::NAN), ..base }));
}

#[test]
fn seeding_takes_its_readings() {
    let mut seeder = BiasSeeder::new();
    let mut reads = 0;
    while seeder.wants_reading() {
        reads += 1;
        // every third read fails
        if reads % 3 == 0 {
            seeder.record(None);
        } else {
            seeder.record(Some((v(reads as f32), v(0.5))));
        }
    }
    assert_eq!(reads, BOOT_SAMPLES);
    assert_eq!(seeder.successful, 200);
    assert_eq!(seeder.m2, v(0.5));
    let (outcome, tracker) = seeder.finish(v(0.05));
    assert_eq!(outcome, SeedOutcome::Seeded);
    assert_eq!(tracker.bias(), v(299.0));
}

#[test]
fn a_seed_without_reads_is_zero() {
    let mut seeder = BiasSeeder::new();
    while seeder.wants_reading() {
        seeder.record(None);
    }
    let (outcome, tracker) = seeder.finish(v(0.0));
    assert_eq!(outcome, SeedOutcome::NoReads);
    assert_eq!(tracker.bias(), Vector::zeros());
}

#[test]
fn a_seed_taken_in_motion_is_zero() {
    let mut seeder = BiasSeeder::new();
    seeder.record(Some((v(0.5), v(0.5))));
    let spread = Vector::new(s(0.01), s(0.01), s(0.0500001));
    let (outcome, tracker) = seeder.finish(spread);
    assert_eq!(outcome, SeedOutcome::Moved);
    assert_eq!(tracker.bias(), Vector::zeros());
    let (outcome, tracker) = seeder.finish(v(f32::NAN));
    assert_eq!(outcome, SeedOutcome::Seeded);
    assert_eq!(tracker.bias(), v(0.5));
}
