use nalgebra::{SMatrix, Vector3};
use quad_flight::mag_calibration::{
    Fit, MagAction, MagCalibrator, MagEvent, MagSession, Spread, MAX_SAMPLES, MIN_MEAN_DISTANCE_BITS,
    SESSION_PRE_SCALER_BITS,
};
use quad_flight::single::{Single, Vector};

fn s(v: f32) -> Single {
    Single { bits: v.to_bits() }
}

fn f(v: Single) -> f32 {
    f32::from_bits(v.bits)
}

fn vector(v: Vector3<f32>) -> Vector {
    Vector::new(s(v.x), s(v.y), s(v.z))
}

fn floats(v: Vector) -> Vector3<f32> {
    Vector3::new(f(v.x), f(v.y), f(v.z))
}

// distances of a point to all kept samples
fn distances<const N: usize>(cal: &MagCalibrator<N>, point: Vector) -> Vec<Single> {
    cal.samples
        .iter()
        .map(|row| {
            let diff = floats(point) - floats(*row);
            s(diff.dot(&diff).sqrt())
        })
        .collect()
}

// mean over the neighbours; the point itself adds nothing
fn mean<const N: usize>(cal: &MagCalibrator<N>, nearest: Vec<Single>) -> f32 {
    nearest.iter().rfold(0.0f32, |a, b| a + f(*b)) / cal.k as f32
}

// the calibrator with the arithmetic that it leaves to its caller
fn evaluate<const N: usize>(cal: &mut MagCalibrator<N>, x: Vector3<f32>) {
    let scaled = vector(x / f(cal.pre_scaler));
    let mut spread = Spread { row_means: Vec::new(), overall: s(0.0), candidate: s(0.0) };
    if cal.is_full() {
        let means: Vec<f32> = cal
            .samples
            .iter()
            .map(|row| mean(cal, cal.nearest(&distances(cal, *row))))
            .collect();
        spread.overall = s(means.iter().rfold(0.0f32, |a, b| a + b) / N as f32);
        spread.row_means = means.into_iter().map(s).collect();
        spread.candidate = s(mean(cal, cal.nearest_to_new(&distances(cal, scaled))));
    }
    cal.evaluate_sample_vec(vector(x), scaled, &spread);
}

// least-squares fit of an axis-aligned ellipsoid to the kept samples
fn calibrate<const N: usize>(cal: &MagCalibrator<N>) -> Option<Fit> {
    let mut matrix: SMatrix<f32, N, 6> = SMatrix::from_element(1.0);
    let mut w: SMatrix<f32, N, 1> = SMatrix::from_element(0.0);
    for (i, row) in cal.samples.iter().enumerate() {
        let row = floats(*row);
        matrix[(i, 0)] = row.x;
        matrix[(i, 1)] = row.y;
        matrix[(i, 2)] = row.z;
        matrix[(i, 3)] = -row.y * row.y;
        matrix[(i, 4)] = -row.z * row.z;
        w[i] = row.x * row.x;
    }
    let pre = f(cal.pre_scaler);
    let none = Fit { offset: Vector::zeros(), scale: Vector::zeros() };
    let Some(inverse) = (matrix.transpose() * matrix).try_inverse() else {
        return cal.perform_calibration(None, none);
    };
    let x = inverse * matrix.transpose() * w;
    let off = [x[0] / 2., x[1] / (2. * x[3]), x[2] / (2. * x[4])];
    let temp = x[5] + (off[0] * off[0]) + x[3] * (off[1] * off[1]) + x[4] * (off[2] * off[2]);
    let scale = [temp.sqrt(), (temp / x[3]).sqrt(), (temp / x[4]).sqrt()];
    let fit = Fit {
        offset: vector(Vector3::from(off)),
        scale: vector(Vector3::from(scale)),
    };
    let unscaled = Fit {
        offset: vector(Vector3::from(off) * pre),
        scale: vector(Vector3::from(scale) * pre),
    };
    cal.perform_calibration(Some(fit), unscaled)
}

// scatters points roughly evenly over a unit sphere
fn fibonacci_sphere<const N: usize>() -> [Vector3<f32>; N] {
    let golden_angle = core::f32::consts::PI * (3.0 - 5.0f32.sqrt());
    core::array::from_fn(|i| {
        let y = 1.0 - 2.0 * (i as f32) / ((N - 1) as f32);
        let radius = (1.0 - y * y).max(0.0).sqrt();
        let theta = golden_angle * i as f32;
        Vector3::new(theta.cos() * radius, y, theta.sin() * radius)
    })
}

#[test]
fn recovers_known_bias_and_scale() {
    let true_bias = Vector3::new(1.2_f32, -0.6, 0.9);
    let true_scale = Vector3::new(1.4_f32, 0.8, 1.1);

    let mut cal = MagCalibrator::<26>::new().num_neighbors(1);
    for direction in fibonacci_sphere::<200>() {
        let raw = true_bias + true_scale.component_mul(&direction);
        evaluate(&mut cal, raw);
    }

    let fit = calibrate(&cal).expect("fit should succeed");
    let (bias, scale) = (floats(fit.offset), floats(fit.scale));
    for i in 0..3 {
        assert!(
            (bias[i] - true_bias[i]).abs() < 1e-2,
            "bias[{i}] = {}, want {}",
            bias[i],
            true_bias[i]
        );
        assert!(
            (scale[i] - true_scale[i]).abs() < 1e-2,
            "scale[{i}] = {}, want {}",
            scale[i],
            true_scale[i]
        );
    }
}

#[test]
fn rejects_nan_and_infinite_samples() {
    let mut cal = MagCalibrator::<8>::new();
    evaluate(&mut cal, Vector3::new(f32::NAN, 0.0, 0.0));
    evaluate(&mut cal, Vector3::new(0.0, f32::INFINITY, 0.0));
    assert_eq!(cal.get_mean_distance(), s(0.0), "buffer should still be empty");
    assert_eq!(cal.filled, 0);
}

#[test]
fn mean_distance_is_zero_until_buffer_fills() {
    let mut cal = MagCalibrator::<8>::new();
    for direction in fibonacci_sphere::<4>() {
        evaluate(&mut cal, direction);
        assert_eq!(
            cal.get_mean_distance(),
            s(0.0),
            "buffer isn't full yet, shouldn't report a real distance"
        );
    }
}

#[test]
fn identical_samples_fail_to_fit() {
    let mut cal = MagCalibrator::<8>::new();
    for _ in 0..8 {
        evaluate(&mut cal, Vector3::new(1.0, 0.0, 0.0));
    }
    assert!(calibrate(&cal).is_none());
}

#[test]
fn usable_samples_fill_the_buffer_in_order() {
    let mut cal = MagCalibrator::<3>::new();
    let points = [
        Vector3::new(1.0f32, 2.0, 3.0),
        Vector3::new(f32::NAN, 2.0, 3.0),
        Vector3::new(0.0, 1.0, 0.0),
        Vector3::new(4.0, f32::NEG_INFINITY, 6.0),
        Vector3::new(f32::MIN_POSITIVE / 2.0, 1.0, 1.0),
    ];
    for p in points {
        evaluate(&mut cal, p);
    }
    assert_eq!(cal.filled, 3);
    assert!(cal.is_full());
    assert_eq!(cal.samples[0], vector(points[0]));
    assert_eq!(cal.samples[1], vector(points[2]));
    assert_eq!(cal.samples[2], vector(points[4]));
}

#[test]
fn a_sample_with_zeros_is_stored_scaled() {
    let mut cal = MagCalibrator::<4>::new().pre_scaler(s(2.0));
    evaluate(&mut cal, Vector3::new(8.0, 6.0, 4.0));
    evaluate(&mut cal, Vector3::new(0.0, 1.0, 0.0));
    assert_eq!(cal.filled, 2);
    assert_eq!(cal.samples[0], Vector::new(s(4.0), s(3.0), s(2.0)));
    assert_eq!(cal.samples[1], Vector::new(s(0.0), s(0.5), s(0.0)));
    assert_eq!(cal.samples[2], Vector::new(s(1.0), s(1.0), s(1.0)));
}

#[test]
fn a_better_sample_replaces_the_first_least_useful_one() {
    let mut cal = MagCalibrator::<3>::new();
    for i in 1..=3 {
        evaluate(&mut cal, Vector3::new(i as f32, 1.0, 1.0));
    }
    let x = Vector::new(s(9.0), s(9.0), s(9.0));
    let spread = Spread {
        row_means: vec![s(0.5), s(0.25), s(0.25)],
        overall: s(0.75),
        candidate: s(0.25),
    };
    // no better than the least useful: kept out, but the mean is updated
    cal.evaluate_sample_vec(x, x, &spread);
    assert_eq!(cal.samples[1], Vector::new(s(2.0), s(1.0), s(1.0)));
    assert_eq!(cal.get_mean_distance(), s(0.75));
    let spread = Spread { candidate: s(0.26), ..spread };
    cal.evaluate_sample([s(9.0), s(9.0), s(9.0)], [s(9.0), s(9.0), s(9.0)], &spread);
    assert_eq!(cal.samples[1], x);
    assert_eq!(cal.samples[2], Vector::new(s(3.0), s(1.0), s(1.0)));
    // a NaN mean comes last in the order
    let spread = Spread {
        row_means: vec![s(f32::NAN), s(0.5), s(0.4)],
        overall: s(0.5),
        candidate: s(1.0),
    };
    let y = Vector::new(s(5.0), s(5.0), s(5.0));
    cal.evaluate_sample_vec(y, y, &spread);
    assert_eq!(cal.samples[2], y);
}

#[test]
fn nearest_takes_the_point_and_its_neighbours() {
    let cal = MagCalibrator::<5>::new().num_neighbors(2);
    let distances = vec![s(3.0), s(0.0), s(f32::NAN), s(1.0), s(2.0)];
    let got: Vec<f32> = cal.nearest(&distances).iter().map(|d| f(*d)).collect();
    assert_eq!(got, [0.0, 1.0, 2.0]);
    // a point that is not kept has no distance to itself
    let got: Vec<f32> = cal.nearest_to_new(&distances).iter().map(|d| f(*d)).collect();
    assert_eq!(got, [0.0, 1.0]);
    // with more neighbours than samples, all of them
    let cal = MagCalibrator::<5>::new().num_neighbors(9);
    assert_eq!(cal.nearest(&distances).len(), 5);
    assert_eq!(cal.nearest_to_new(&distances).len(), 5);
    assert!(MagCalibrator::<5>::new().num_neighbors(0).nearest_to_new(&distances).is_empty());
}

#[test]
fn a_fit_counts_only_if_it_is_finite() {
    let good = Fit {
        offset: Vector::new(s(1.0), s(2.0), s(3.0)),
        scale: Vector::new(s(4.0), s(5.0), s(6.0)),
    };
    let unscaled = Fit {
        offset: Vector::new(s(200.0), s(400.0), s(600.0)),
        scale: Vector::new(s(800.0), s(1000.0), s(1200.0)),
    };
    let got = MagCalibrator::<8>::new().perform_calibration(Some(good), unscaled).unwrap();
    assert_eq!((got.offset, got.scale), (unscaled.offset, unscaled.scale));
    assert!(MagCalibrator::<8>::new().perform_calibration(None, unscaled).is_none());
    for bad in [f32::NAN, f32::INFINITY, f32::NEG_INFINITY] {
        let fit = Fit { scale: Vector::new(s(4.0), s(5.0), s(bad)), ..good };
        assert!(MagCalibrator::<8>::new().perform_calibration(Some(fit), unscaled).is_none());
        let fit = Fit { offset: Vector::new(s(bad), s(5.0), s(6.0)), ..good };
        assert!(MagCalibrator::<8>::new().perform_calibration(Some(fit), unscaled).is_none());
    }
}

fn fit() -> Fit {
    let v = Vector::new(s(1.0), s(2.0), s(3.0));
    Fit { offset: v, scale: v }
}

#[test]
fn a_session_gives_up_after_its_samples() {
    let mut session = MagSession::new();
    assert!(matches!(session.on_event(MagEvent::Started), MagAction::Read));
    for i in 1..MAX_SAMPLES {
        // failed reads, too little coverage, no fit
        let event = match i % 3 {
            0 => MagEvent::ReadFailed,
            1 => MagEvent::Sampled { mean_distance: s(0.035), fit: Some(fit()) },
            _ => MagEvent::Sampled { mean_distance: s(0.5), fit: None },
        };
        assert!(matches!(session.on_event(event), MagAction::Read));
    }
    assert_eq!(session.taken, MAX_SAMPLES);
    assert!(matches!(session.on_event(MagEvent::ReadFailed), MagAction::GaveUp));
}

#[test]
fn a_session_ends_with_the_first_covered_fit() {
    let mut session = MagSession::new();
    session.on_event(MagEvent::Started);
    let event = MagEvent::Sampled { mean_distance: s(0.0351), fit: Some(fit()) };
    match session.on_event(event) {
        MagAction::Done(got) => assert_eq!((got.offset, got.scale), (fit().offset, fit().scale)),
        other => panic!("{other:?}"),
    }
    assert_eq!(session.taken, 1);
    // also on the very last sample
    let mut session = MagSession { taken: MAX_SAMPLES };
    assert!(matches!(session.on_event(event), MagAction::Done(_)));
}

#[test]
fn coverage_is_a_strict_threshold() {
    assert_eq!(f32::from_bits(MIN_MEAN_DISTANCE_BITS), 0.035);
    assert_eq!(f32::from_bits(SESSION_PRE_SCALER_BITS), 200.0);
    assert!(!MagSession::coverage_reached(s(0.035)));
    assert!(MagSession::coverage_reached(s(0.03500001)));
    assert!(!MagSession::coverage_reached(s(f32::NAN)));
}
