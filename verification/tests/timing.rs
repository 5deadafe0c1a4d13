use quad_flight::single::Single;
use quad_flight::timing::{DtStats, LogCadence, LoopLog, Sample, Stopwatch};

fn s(v: f32) -> Single {
    Single { bits: v.to_bits() }
}

fn f(v: Single) -> f32 {
    f32::from_bits(v.bits)
}

fn sample(stats: &DtStats, dt: f32) -> Sample {
    Sample { dt: s(dt), sum: s(f(stats.sum) + dt) }
}

#[test]
fn the_first_lap_has_no_length() {
    let mut watch = Stopwatch::new();
    assert_eq!(watch.lap(5_000), 0);
    assert_eq!(watch.lap(6_000), 1_000);
    assert_eq!(watch.lap(6_000), 0);
    let mut running = Stopwatch::started(100);
    assert_eq!(running.lap(350), 250);
}

#[test]
fn log_lines_are_evenly_spaced() {
    let mut cadence = LogCadence::new(3);
    assert!(cadence.at_start());
    let due: Vec<bool> = (0..9).map(|_| cadence.tick()).collect();
    assert_eq!(due, [false, false, true, false, false, true, false, false, true]);
    // without an interval every iteration logs
    let mut every = LogCadence::new(0);
    assert!(every.tick());
    assert!(every.tick());
    let mut once = LogCadence::new(1);
    assert!(once.tick());
    let mut rare = LogCadence::new(u32::MAX);
    assert!(!rare.tick());
    assert!(!rare.at_start());
}

#[test]
fn statistics_bound_the_durations() {
    let mut stats = DtStats::new();
    assert_eq!(f(stats.min), f32::MAX);
    assert_eq!(f(stats.max), 0.0);
    for dt in [0.002f32, 0.001, 0.004, 0.003] {
        let next = sample(&stats, dt);
        stats.record(next);
    }
    assert_eq!(f(stats.min), 0.001);
    assert_eq!(f(stats.max), 0.004);
    assert_eq!(stats.n, 4);
    assert_eq!(f(stats.sum), 0.002f32 + 0.001 + 0.004 + 0.003);
    // a NaN is passed over by the extremes
    let next = sample(&stats, f32::NAN);
    stats.record(next);
    assert_eq!(f(stats.min), 0.001);
    assert_eq!(f(stats.max), 0.004);
    assert_eq!(stats.n, 5);
}

#[test]
fn the_loop_log_reports_on_one_cadence() {
    let mut log = LoopLog::new(2);
    let one = |stats: &DtStats| sample(stats, 0.5);

    // first iteration: wake statistics at once, the rest not yet
    let report = log.woke(one(&log.interrupt_wait.clone()), one(&log.wake.clone()));
    assert_eq!(report.unwrap().0.n, 1);
    assert_eq!(log.wake.n, 0);
    log.sensor_read(one(&log.spi.clone()));
    assert!(log.fused(one(&log.math.clone()), one(&log.dt.clone())).is_none());
    assert!(log.attitude_ready(one(&log.euler.clone())).is_none());
    assert!(log.motors_set(one(&log.pid_mix.clone())).is_none());

    // a failed read counts for the sensor statistics alone
    assert!(log.woke(one(&log.interrupt_wait.clone()), one(&log.wake.clone())).is_none());
    log.sensor_read(one(&log.spi.clone()));

    // second successful iteration: everything is reported
    assert!(log.woke(one(&log.interrupt_wait.clone()), one(&log.wake.clone())).is_none());
    log.sensor_read(one(&log.spi.clone()));
    let (dt, spi, math) = log.fused(one(&log.math.clone()), one(&log.dt.clone())).unwrap();
    assert_eq!((dt.n, spi.n, math.n), (2, 3, 2));
    assert_eq!(f(spi.sum), 1.5);
    assert_eq!(log.attitude_ready(one(&log.euler.clone())).unwrap().n, 2);
    assert_eq!(log.motors_set(one(&log.pid_mix.clone())).unwrap().n, 2);
    assert_eq!((log.dt.n, log.spi.n, log.math.n, log.euler.n, log.pid_mix.n), (0, 0, 0, 0, 0));

    // wake statistics follow in the next iteration
    let (wait, wake) =
        log.woke(one(&log.interrupt_wait.clone()), one(&log.wake.clone())).unwrap();
    assert_eq!((wait.n, wake.n), (3, 3));
}
