use quad_flight::calibrate::{
    mag_pass_due, pass_result, session_report, AccelBias, CalibrationMode, Extremes, PassResult,
    TumbleAction, TumbleCalibration, TumbleEvent, SAMPLES,
};
use quad_flight::single::{Single, Vector};

fn s(v: f32) -> Single {
    Single { bits: v.to_bits() }
}

fn v(x: f32, y: f32, z: f32) -> Vector {
    Vector::new(s(x), s(y), s(z))
}

const POSES: [(CalibrationMode, &str); 6] = [
    (CalibrationMode::Level, "level"),
    (CalibrationMode::FrontUp, "front side up"),
    (CalibrationMode::BackUp, "back side up"),
    (CalibrationMode::RightSide, "right side up"),
    (CalibrationMode::LeftSide, "left side up"),
    (CalibrationMode::UpsideDown, "upside down"),
];

// runs a calibration in which pose `i` averages to `averages[i]` and every
// reading of pose `dead` fails
fn run(averages: [Vector; 6], dead: Option<usize>) -> (Option<Extremes>, Vec<CalibrationMode>) {
    let mut cal = TumbleCalibration::new();
    let mut shown: Vec<CalibrationMode> = Vec::new();
    let mut reads = 0;
    loop {
        match cal.next() {
            TumbleAction::Place(mode) => {
                shown.push(mode);
                reads = 0;
                cal.on_event(TumbleEvent::Placed);
            }
            TumbleAction::Read => {
                let ok = dead != Some(cal.pose) && reads % 2 == 0;
                reads += 1;
                cal.on_event(TumbleEvent::ReadDone(ok));
            }
            TumbleAction::Average => {
                assert_eq!(reads, SAMPLES);
                assert_eq!(cal.successful, SAMPLES / 2);
                let avg = averages[cal.pose];
                cal.on_event(TumbleEvent::Averaged(avg));
            }
            TumbleAction::Finished | TumbleAction::Aborted => return (cal.result(), shown),
        }
    }
}

#[test]
fn tumbling_finds_the_extremes_of_each_axis() {
    let averages = [
        v(0.1, 0.2, 1.05),
        v(1.1, 0.0, 0.1),
        v(-0.9, 0.1, 0.0),
        v(0.0, 0.95, 0.1),
        v(0.1, -1.05, 0.0),
        v(0.0, 0.1, -0.98),
    ];
    let (result, shown) = run(averages, None);
    let result = result.unwrap();
    assert_eq!(result.max, v(1.1, 0.95, 1.05));
    assert_eq!(result.min, v(-0.9, -1.05, -0.98));
    assert_eq!(shown, POSES.map(|p| p.0));
}

#[test]
fn the_order_of_the_poses_does_not_matter() {
    let mut averages = [
        v(0.1, 0.2, 1.05),
        v(1.1, 0.0, 0.1),
        v(-0.9, 0.1, 0.0),
        v(0.0, 0.95, 0.1),
        v(0.1, -1.05, 0.0),
        v(0.0, 0.1, -0.98),
    ];
    for _ in 0..6 {
        averages.rotate_left(1);
        let result = run(averages, None).0.unwrap();
        assert_eq!(result.max, v(1.1, 0.95, 1.05));
        assert_eq!(result.min, v(-0.9, -1.05, -0.98));
    }
}

#[test]
fn an_average_that_is_no_number_is_passed_over() {
    let averages = [
        v(f32::NAN, 1.0, 1.0),
        v(2.0, 1.0, 1.0),
        v(1.0, 1.0, 1.0),
        v(1.0, 1.0, 1.0),
        v(1.0, 1.0, 1.0),
        v(1.0, 1.0, 1.0),
    ];
    let result = run(averages, None).0.unwrap();
    assert_eq!(result.max, v(2.0, 1.0, 1.0));
    assert_eq!(result.min, v(1.0, 1.0, 1.0));
}

#[test]
fn a_pose_without_readings_aborts() {
    let (result, shown) = run([v(1.0, 1.0, 1.0); 6], Some(2));
    assert!(result.is_none());
    assert_eq!(shown.len(), 3);
}

#[test]
fn poses_are_called_by_name() {
    for (mode, name) in POSES {
        assert_eq!(mode.name(), name);
    }
}

#[test]
fn the_default_correction_changes_nothing() {
    let bias = AccelBias::default();
    assert_eq!(bias.bias, v(0.0, 0.0, 0.0));
    assert_eq!(bias.scale, v(1.0, 1.0, 1.0));
}

#[test]
fn a_session_succeeds_only_if_every_pass_was_saved() {
    assert_eq!(pass_result(false, false), PassResult::Aborted);
    assert_eq!(pass_result(true, false), PassResult::NotSaved);
    assert_eq!(pass_result(true, true), PassResult::Saved);

    let all = [PassResult::Aborted, PassResult::NotSaved, PassResult::Saved];
    for accel in all {
        assert_eq!(mag_pass_due(accel, true), accel == PassResult::Saved);
        assert!(!mag_pass_due(accel, false));
        let ok = accel == PassResult::Saved;
        assert_eq!(session_report(accel, None) == CalibrationMode::Ended, ok);
        for mag in all {
            let want = if ok && mag == PassResult::Saved {
                CalibrationMode::Ended
            } else {
                CalibrationMode::Failed
            };
            assert_eq!(session_report(accel, Some(mag)), want);
        }
    }
}
