//! Loop timing: laps, log cadence and the duration statistics of the flight loop.

use crate::single::Single;
use vstd::prelude::*;

verus! {

/// Bit pattern of the largest finite number, where a running minimum starts.
pub const LARGEST_BITS: u32 = 0x7f7f_ffff;

/// Measures the time from lap to lap, in microseconds.
#[derive(Clone, Copy, Debug)]
pub struct Stopwatch {
    /// when the previous lap ended
    pub last: Option<u64>,
}

impl Stopwatch {
    /// A stopwatch whose first lap has no length.
    pub fn new() -> (r: Stopwatch)
        ensures
            r.last is None,
    {
        Stopwatch { last: None }
    }

    /// A stopwatch whose first lap starts now.
    pub fn started(now: u64) -> (r: Stopwatch)
        ensures
            r.last == Some(now),
    {
        Stopwatch { last: Some(now) }
    }

    /// Ends a lap and returns its length.
    pub fn lap(&mut self, now: u64) -> (r: u64)
        requires
            old(self).last matches Some(last) ==> last <= now,
        ensures
            r == match old(self).last {
                Some(last) => now - last,
                None => 0,
            },
            final(self).last == Some(now),
    {
        let length: u64 = match self.last {
            Some(last) => now - last,
            None => 0,
        };
        self.last = Some(now);
        length
    }
}

/// Counts loop iterations up to the next log line.
#[derive(Clone, Copy, Debug)]
pub struct LogCadence {
    /// iterations since the last log line
    pub counter: u32,
    /// iterations from log line to log line
    pub every: u32,
}

impl LogCadence {
    /// The count stays below the cadence.
    pub open spec fn well_formed(self) -> bool {
        self.counter == 0 || self.counter < self.every
    }

    pub fn new(every: u32) -> (r: LogCadence)
        ensures
            r == (LogCadence { counter: 0, every }),
            r.well_formed(),
    {
        LogCadence { counter: 0, every }
    }

    /// Whether no iteration has been counted since the last log line, or at all.
    pub fn at_start(&self) -> (r: bool)
        ensures
            r == (self.counter == 0),
    {
        self.counter == 0
    }

    /// Counts one iteration; true when its log line is due.
    pub fn tick(&mut self) -> (r: bool)
        requires
            old(self).well_formed(),
        ensures
            final(self).well_formed(),
            r == (old(self).counter + 1 >= old(self).every),
            final(self).every == old(self).every,
            final(self).counter == if r {
                0
            } else {
                old(self).counter + 1
            },
    {
        self.counter = self.counter + 1;
        if self.counter >= self.every {
            self.counter = 0;
            true
        } else {
            false
        }
    }
}

/// The count after `n` further iterations.
pub open spec fn ticked(cadence: LogCadence, n: nat) -> LogCadence
    decreases n,
{
    if n == 0 {
        cadence
    } else {
        let before = ticked(cadence, (n - 1) as nat);
        LogCadence {
            counter: if before.counter + 1 >= before.every {
                0
            } else {
                (before.counter + 1) as u32
            },
            every: before.every,
        }
    }
}

/// Log lines come every `every` iterations exactly: from one log line, the next
/// is due at the last of that many iterations and at none before it.
pub proof fn law_log_lines_are_evenly_spaced(cadence: LogCadence, n: nat)
    requires
        cadence.counter == 0,
        n <= cadence.every,
    ensures
        ticked(cadence, n).every == cadence.every,
        ticked(cadence, n).counter == if n == cadence.every {
            0
        } else {
            n as int
        },
    decreases n,
{
    if n > 0 {
        law_log_lines_are_evenly_spaced(cadence, (n - 1) as nat);
    }
}

/// A duration in seconds, and the sum of durations with it added.
#[derive(Clone, Copy, Debug)]
pub struct Sample {
    pub dt: Single,
    pub sum: Single,
}

/// Running minimum, maximum and sum of durations between two log lines.
#[derive(Clone, Copy, Debug)]
pub struct DtStats {
    pub min: Single,
    pub max: Single,
    pub sum: Single,
    pub n: u32,
}

impl DtStats {
    /// Statistics of nothing yet.
    pub open spec fn empty() -> DtStats {
        DtStats {
            min: Single { bits: LARGEST_BITS },
            max: Single { bits: 0 },
            sum: Single { bits: 0 },
            n: 0,
        }
    }

    /// The statistics with one more duration.
    pub open spec fn with(self, sample: Sample) -> DtStats {
        DtStats {
            min: self.min.lesser(sample.dt),
            max: self.max.greater(sample.dt),
            sum: sample.sum,
            n: (self.n + 1) as u32,
        }
    }

    pub fn new() -> (r: DtStats)
        ensures
            r == DtStats::empty(),
    {
        DtStats {
            min: Single { bits: LARGEST_BITS },
            max: Single { bits: 0 },
            sum: Single { bits: 0 },
            n: 0,
        }
    }

    /// Takes in one more duration.
    pub fn record(&mut self, sample: Sample)
        requires
            old(self).n < u32::MAX,
        ensures
            *final(self) == old(self).with(sample),
    {
        self.min = self.min.min(sample.dt);
        self.max = self.max.max(sample.dt);
        self.sum = sample.sum;
        self.n = self.n + 1;
    }
}

/// Statistics of a sequence of durations.
pub open spec fn recorded(samples: Seq<Sample>) -> DtStats
    decreases samples.len(),
{
    if samples.len() == 0 {
        DtStats::empty()
    } else {
        recorded(samples.drop_last()).with(samples.last())
    }
}

/// The minimum and the maximum bound every duration that was recorded, as long
/// as none of them is a NaN.
pub proof fn law_statistics_bound_durations(samples: Seq<Sample>, i: int)
    requires
        0 <= i < samples.len() <= u32::MAX,
        forall|k: int|
            0 <= k < samples.len() ==> !(#[trigger] samples[k]).dt.nan(),
    ensures
        recorded(samples).min.at_most(samples[i].dt),
        samples[i].dt.at_most(recorded(samples).max),
    decreases samples.len(),
{
    let before = samples.drop_last();
    assert forall|k: int| 0 <= k < before.len() implies !(#[trigger] before[k]).dt.nan() by {
        assert(before[k] == samples[k]);
    }
    lemma_statistics_are_numbers(before);
    assert(!samples[samples.len() - 1].dt.nan());
    if i < samples.len() - 1 {
        law_statistics_bound_durations(before, i);
    }
}

/// Statistics of durations that are numbers hold no NaN.
proof fn lemma_statistics_are_numbers(samples: Seq<Sample>)
    requires
        forall|k: int| 0 <= k < samples.len() ==> !(#[trigger] samples[k]).dt.nan(),
    ensures
        !recorded(samples).min.nan(),
        !recorded(samples).max.nan(),
    decreases samples.len(),
{
    if samples.len() > 0 {
        let before = samples.drop_last();
        assert forall|k: int| 0 <= k < before.len() implies !(#[trigger] before[k]).dt.nan() by {
            assert(before[k] == samples[k]);
        }
        lemma_statistics_are_numbers(before);
        assert(!samples[samples.len() - 1].dt.nan());
    } else {
        assert(!Single { bits: LARGEST_BITS }.nan());
    }
}

/// Timing of the flight loop, phase by phase, with the log lines that report it.
///
/// Every phase has statistics of its own. They are reported on one cadence, which
/// counts the iterations with a successful sensor read, and start afresh with
/// each report.
#[derive(Clone, Copy, Debug)]
pub struct LoopLog {
    pub cadence: LogCadence,
    /// waiting for the data-ready interrupt
    pub interrupt_wait: DtStats,
    /// from the interrupt to having looked at the control input
    pub wake: DtStats,
    /// reading the sensor
    pub spi: DtStats,
    /// filtering and fusion
    pub math: DtStats,
    /// from iteration to iteration
    pub dt: DtStats,
    /// decomposing the attitude
    pub euler: DtStats,
    /// rate control, mixing and motor output
    pub pid_mix: DtStats,
}

impl LoopLog {
    pub fn new(every: u32) -> (r: LoopLog)
        ensures
            r.cadence == (LogCadence { counter: 0, every }),
            r.cadence.well_formed(),
            r.interrupt_wait == DtStats::empty(),
            r.wake == DtStats::empty(),
            r.spi == DtStats::empty(),
            r.math == DtStats::empty(),
            r.dt == DtStats::empty(),
            r.euler == DtStats::empty(),
            r.pid_mix == DtStats::empty(),
    {
        LoopLog {
            cadence: LogCadence::new(every),
            interrupt_wait: DtStats::new(),
            wake: DtStats::new(),
            spi: DtStats::new(),
            math: DtStats::new(),
            dt: DtStats::new(),
            euler: DtStats::new(),
            pid_mix: DtStats::new(),
        }
    }

    /// The loop woke up. Returns the interrupt and wake statistics when their log
    /// line is due, which is in the first iteration and after every report of
    /// [`LoopLog::fused`], armed or not.
    pub fn woke(&mut self, interrupt_wait: Sample, wake: Sample) -> (r: Option<(DtStats, DtStats)>)
        requires
            old(self).interrupt_wait.n < u32::MAX,
            old(self).wake.n < u32::MAX,
        ensures
            r == if old(self).cadence.counter == 0 {
                Some((old(self).interrupt_wait.with(interrupt_wait), old(self).wake.with(wake)))
            } else {
                None
            },
            *final(self) == if old(self).cadence.counter == 0 {
                LoopLog {
                    interrupt_wait: DtStats::empty(),
                    wake: DtStats::empty(),
                    ..*old(self)
                }
            } else {
                LoopLog {
                    interrupt_wait: old(self).interrupt_wait.with(interrupt_wait),
                    wake: old(self).wake.with(wake),
                    ..*old(self)
                }
            },
    {
        self.interrupt_wait.record(interrupt_wait);
        self.wake.record(wake);
        if self.cadence.at_start() {
            let report: (DtStats, DtStats) = (self.interrupt_wait, self.wake);
            self.interrupt_wait = DtStats::new();
            self.wake = DtStats::new();
            Some(report)
        } else {
            None
        }
    }

    /// The sensor was read, successfully or not.
    pub fn sensor_read(&mut self, spi: Sample)
        requires
            old(self).spi.n < u32::MAX,
        ensures
            *final(self) == (LoopLog { spi: old(self).spi.with(spi), ..*old(self) }),
    {
        self.spi.record(spi);
    }

    /// A successful read has been fused. Counts the iteration and returns the
    /// iteration, sensor and fusion statistics when their log line is due.
    pub fn fused(&mut self, math: Sample, dt: Sample) -> (r: Option<(DtStats, DtStats, DtStats)>)
        requires
            old(self).cadence.well_formed(),
            old(self).math.n < u32::MAX,
            old(self).dt.n < u32::MAX,
        ensures
            final(self).cadence.well_formed(),
            final(self).cadence == ticked(old(self).cadence, 1),
            r == if final(self).cadence.counter == 0 {
                Some((old(self).dt.with(dt), old(self).spi, old(self).math.with(math)))
            } else {
                None
            },
            *final(self) == if final(self).cadence.counter == 0 {
                LoopLog {
                    cadence: final(self).cadence,
                    dt: DtStats::empty(),
                    spi: DtStats::empty(),
                    math: DtStats::empty(),
                    ..*old(self)
                }
            } else {
                LoopLog {
                    cadence: final(self).cadence,
                    dt: old(self).dt.with(dt),
                    math: old(self).math.with(math),
                    ..*old(self)
                }
            },
    {
        proof {
            reveal_with_fuel(ticked, 2);
        }
        self.math.record(math);
        let due: bool = self.cadence.tick();
        self.dt.record(dt);
        if due {
            let report: (DtStats, DtStats, DtStats) = (self.dt, self.spi, self.math);
            self.dt = DtStats::new();
            self.spi = DtStats::new();
            self.math = DtStats::new();
            Some(report)
        } else {
            None
        }
    }

    /// The attitude has been decomposed. Returns the statistics of that phase in
    /// the iterations in which [`LoopLog::fused`] reported.
    pub fn attitude_ready(&mut self, euler: Sample) -> (r: Option<DtStats>)
        requires
            old(self).euler.n < u32::MAX,
        ensures
            r == if old(self).cadence.counter == 0 {
                Some(old(self).euler.with(euler))
            } else {
                None
            },
            *final(self) == (LoopLog {
                euler: if old(self).cadence.counter == 0 {
                    DtStats::empty()
                } else {
                    old(self).euler.with(euler)
                },
                ..*old(self)
            }),
    {
        self.euler.record(euler);
        if self.cadence.at_start() {
            let report: DtStats = self.euler;
            self.euler = DtStats::new();
            Some(report)
        } else {
            None
        }
    }

    /// The motors have been set. Returns the statistics of control and mixing in
    /// the iterations in which [`LoopLog::fused`] reported.
    pub fn motors_set(&mut self, pid_mix: Sample) -> (r: Option<DtStats>)
        requires
            old(self).pid_mix.n < u32::MAX,
        ensures
            r == if old(self).cadence.counter == 0 {
                Some(old(self).pid_mix.with(pid_mix))
            } else {
                None
            },
            *final(self) == (LoopLog {
                pid_mix: if old(self).cadence.counter == 0 {
                    DtStats::empty()
                } else {
                    old(self).pid_mix.with(pid_mix)
                },
                ..*old(self)
            }),
    {
        self.pid_mix.record(pid_mix);
        if self.cadence.at_start() {
            let report: DtStats = self.pid_mix;
            self.pid_mix = DtStats::new();
            Some(report)
        } else {
            None
        }
    }
}

/// A lap lasts from the end of the one before; the first lap of a new stopwatch has
/// no length, that of a started one counts from its start.
pub proof fn law_laps_follow_each_other(
    watch: &mut Stopwatch,
    now: u64,
    r: u64,
    fresh: Stopwatch,
    started: Stopwatch,
)
    requires
        call_ensures(Stopwatch::lap, (watch, now), r),
        call_ensures(Stopwatch::new, (), fresh),
        call_ensures(Stopwatch::started, (now,), started),
    ensures
        old(watch).last matches Some(last) ==> r == now - last,
        old(watch).last is None ==> r == 0,
        final(watch).last == Some(now),
        fresh.last is None,
        started.last == Some(now),
{
}

/// A log line is due when the iterations since the last one, this one included, have
/// reached the cadence, and then the count starts over; a cadence of none is one.
pub proof fn law_log_line_is_due_at_the_cadence(
    cadence: &mut LogCadence,
    r: bool,
    at_start: bool,
    every: u32,
    fresh: LogCadence,
)
    requires
        call_ensures(LogCadence::tick, (cadence,), r),
        call_ensures(LogCadence::at_start, (cadence,), at_start),
        call_ensures(LogCadence::new, (every,), fresh),
    ensures
        r <==> old(cadence).counter + 1 >= old(cadence).every,
        r ==> final(cadence).counter == 0,
        !r ==> final(cadence).counter == old(cadence).counter + 1,
        final(cadence).every == old(cadence).every,
        at_start <==> old(cadence).counter == 0,
        fresh.counter == 0 && fresh.every == every,
{
}

/// Statistics count every duration, keep the sum they are handed, and widen to hold
/// the duration, ignoring one that is no number. They start between the largest
/// number and zero.
pub proof fn law_statistics_widen(stats: &mut DtStats, sample: Sample, fresh: DtStats)
    requires
        old(stats).n < u32::MAX,
        call_ensures(DtStats::record, (stats, sample), ()),
        call_ensures(DtStats::new, (), fresh),
    ensures
        fresh.min.bits == 0x7f7f_ffff && fresh.max.bits == 0 && fresh.sum.bits == 0 && fresh.n == 0,
        final(stats).n == old(stats).n + 1,
        final(stats).sum == sample.sum,
        final(stats).min == old(stats).min || final(stats).min == sample.dt,
        final(stats).max == old(stats).max || final(stats).max == sample.dt,
        !old(stats).min.nan() && !sample.dt.nan() ==> {
            &&& !final(stats).min.nan()
            &&& final(stats).min.value() <= old(stats).min.value()
            &&& final(stats).min.value() <= sample.dt.value()
        },
        !old(stats).max.nan() && !sample.dt.nan() ==> {
            &&& !final(stats).max.nan()
            &&& final(stats).max.value() >= old(stats).max.value()
            &&& final(stats).max.value() >= sample.dt.value()
        },
        sample.dt.nan() && !old(stats).min.nan() ==> final(stats).min == old(stats).min,
        sample.dt.nan() && !old(stats).max.nan() ==> final(stats).max == old(stats).max,
        old(stats).min.nan() ==> final(stats).min == sample.dt,
        old(stats).max.nan() ==> final(stats).max == sample.dt,
{
}

/// Every phase is recorded with its own statistics: what a call returns, or keeps
/// when no report is due, is what recording the sample on its own gives, and the
/// statistics of the other phases and the cadence stay. A report empties what it
/// reports. Waking reports while the count is at its start.
pub proof fn law_waking_is_recorded(
    log: &mut LoopLog,
    interrupt_wait: Sample,
    wake: Sample,
    r: Option<(DtStats, DtStats)>,
    waits: &mut DtStats,
    wakes: &mut DtStats,
)
    requires
        call_ensures(LoopLog::woke, (log, interrupt_wait, wake), r),
        *old(waits) == old(log).interrupt_wait,
        call_ensures(DtStats::record, (waits, interrupt_wait), ()),
        *old(wakes) == old(log).wake,
        call_ensures(DtStats::record, (wakes, wake), ()),
    ensures
        r is Some <==> old(log).cadence.counter == 0,
        r matches Some(report) ==> {
            &&& report.0 == *final(waits) && report.1 == *final(wakes)
            &&& final(log).interrupt_wait.n == 0 && final(log).wake.n == 0
            &&& final(log).interrupt_wait.min.bits == 0x7f7f_ffff && final(log).wake.min.bits
                == 0x7f7f_ffff
            &&& final(log).interrupt_wait.max.bits == 0 && final(log).wake.max.bits == 0
            &&& final(log).interrupt_wait.sum.bits == 0 && final(log).wake.sum.bits == 0
        },
        r is None ==> final(log).interrupt_wait == *final(waits) && final(log).wake
            == *final(wakes),
        final(log).cadence == old(log).cadence && final(log).spi == old(log).spi,
        final(log).math == old(log).math && final(log).dt == old(log).dt,
        final(log).euler == old(log).euler && final(log).pid_mix == old(log).pid_mix,
{
}

/// A sensor read is recorded with its own statistics; nothing else changes.
pub proof fn law_sensor_read_is_recorded(log: &mut LoopLog, spi: Sample, reads: &mut DtStats)
    requires
        call_ensures(LoopLog::sensor_read, (log, spi), ()),
        *old(reads) == old(log).spi,
        call_ensures(DtStats::record, (reads, spi), ()),
    ensures
        final(log).spi == *final(reads),
        final(log).cadence == old(log).cadence && final(log).wake == old(log).wake,
        final(log).interrupt_wait == old(log).interrupt_wait && final(log).math == old(log).math,
        final(log).dt == old(log).dt && final(log).euler == old(log).euler,
        final(log).pid_mix == old(log).pid_mix,
{
}

/// Fusion is recorded together with the whole iteration and advances the count. At the
/// cadence the iteration, sensor and fusion statistics are reported, in this order,
/// and emptied.
pub proof fn law_fusion_is_recorded(
    log: &mut LoopLog,
    math: Sample,
    dt: Sample,
    r: Option<(DtStats, DtStats, DtStats)>,
    maths: &mut DtStats,
    dts: &mut DtStats,
)
    requires
        old(log).cadence.well_formed(),
        call_ensures(LoopLog::fused, (log, math, dt), r),
        *old(maths) == old(log).math,
        call_ensures(DtStats::record, (maths, math), ()),
        *old(dts) == old(log).dt,
        call_ensures(DtStats::record, (dts, dt), ()),
    ensures
        r is Some <==> old(log).cadence.counter + 1 >= old(log).cadence.every,
        r is Some ==> final(log).cadence.counter == 0,
        r is None ==> final(log).cadence.counter == old(log).cadence.counter + 1,
        final(log).cadence.every == old(log).cadence.every,
        r matches Some(report) ==> {
            &&& report.0 == *final(dts) && report.1 == old(log).spi && report.2 == *final(maths)
            &&& final(log).dt.n == 0 && final(log).spi.n == 0 && final(log).math.n == 0
            &&& final(log).dt.min.bits == 0x7f7f_ffff && final(log).spi.min.bits == 0x7f7f_ffff
                && final(log).math.min.bits == 0x7f7f_ffff
            &&& final(log).dt.max.bits == 0 && final(log).spi.max.bits == 0
                && final(log).math.max.bits == 0
            &&& final(log).dt.sum.bits == 0 && final(log).spi.sum.bits == 0
                && final(log).math.sum.bits == 0
        },
        r is None ==> final(log).dt == *final(dts) && final(log).math == *final(maths)
            && final(log).spi == old(log).spi,
        final(log).interrupt_wait == old(log).interrupt_wait && final(log).wake == old(log).wake,
        final(log).euler == old(log).euler && final(log).pid_mix == old(log).pid_mix,
{
    reveal_with_fuel(ticked, 2);
}

/// The attitude and the motor phase are recorded with their own statistics, and
/// reported and emptied in the iterations in which the count is at its start.
pub proof fn law_flight_phases_are_recorded(
    log: &mut LoopLog,
    sample: Sample,
    r: Option<DtStats>,
    eulers: &mut DtStats,
    other: &mut LoopLog,
    s: Option<DtStats>,
    mixes: &mut DtStats,
)
    requires
        call_ensures(LoopLog::attitude_ready, (log, sample), r),
        *old(eulers) == old(log).euler,
        call_ensures(DtStats::record, (eulers, sample), ()),
        call_ensures(LoopLog::motors_set, (other, sample), s),
        *old(mixes) == old(other).pid_mix,
        call_ensures(DtStats::record, (mixes, sample), ()),
    ensures
        r is Some <==> old(log).cadence.counter == 0,
        r matches Some(report) ==> report == *final(eulers) && final(log).euler.n == 0
            && final(log).euler.min.bits == 0x7f7f_ffff && final(log).euler.max.bits == 0
            && final(log).euler.sum.bits == 0,
        r is None ==> final(log).euler == *final(eulers),
        final(log).cadence == old(log).cadence && final(log).pid_mix == old(log).pid_mix,
        final(log).wake == old(log).wake && final(log).interrupt_wait == old(log).interrupt_wait,
        final(log).spi == old(log).spi && final(log).math == old(log).math,
        final(log).dt == old(log).dt,
        s is Some <==> old(other).cadence.counter == 0,
        s matches Some(report) ==> report == *final(mixes) && final(other).pid_mix.n == 0
            && final(other).pid_mix.min.bits == 0x7f7f_ffff && final(other).pid_mix.max.bits == 0
            && final(other).pid_mix.sum.bits == 0,
        s is None ==> final(other).pid_mix == *final(mixes),
        final(other).cadence == old(other).cadence && final(other).euler == old(other).euler,
        final(other).wake == old(other).wake,
        final(other).interrupt_wait == old(other).interrupt_wait,
        final(other).spi == old(other).spi && final(other).math == old(other).math,
        final(other).dt == old(other).dt,
{
}

/// A loop starts with an empty count and empty statistics of every phase.
pub proof fn law_loop_log_starts_empty(every: u32, r: LoopLog, empty: DtStats)
    requires
        call_ensures(LoopLog::new, (every,), r),
        call_ensures(DtStats::new, (), empty),
    ensures
        r.cadence.counter == 0 && r.cadence.every == every,
        r.interrupt_wait == empty && r.wake == empty && r.spi == empty && r.math == empty,
        r.dt == empty && r.euler == empty && r.pid_mix == empty,
{
}

} // verus!
