//! The gyro's zero-rate bias: seeding it at boot and learning it on the ground.

use crate::single::{Single, Vector};
use vstd::prelude::*;

verus! {

/// How long the drone has to be still before its gyro reading is learned, in
/// microseconds.
pub const LANDED_DEBOUNCE_US: u64 = 2_000_000;

/// Bit pattern of the deviation from 1 g that still counts as still: 0.1.
pub const LANDED_ACCEL_TOLERANCE_BITS: u32 = 0x3dcc_cccd;

/// Bit pattern of the rate in rad/s that counts as still while armed: 0.5.
pub const STILL_ARMED_BITS: u32 = 0x3f00_0000;

/// Bit pattern of the rate in rad/s that counts as still while disarmed: 0.05.
pub const STILL_DISARMED_BITS: u32 = 0x3d4c_cccd;

/// Time to plug in the battery before readings are taken at boot, in seconds.
pub const STARTUP_DELAY_SECS: u64 = 3;

/// Number of readings taken at boot.
pub const BOOT_SAMPLES: u32 = 300;

/// Bit pattern of the standard deviation in rad/s beyond which the drone was
/// moved while sampling: 0.05.
pub const STDDEV_REJECT_BITS: u32 = 0x3d4c_cccd;

/// One reading as the tracker sees it.
#[derive(Clone, Copy, Debug)]
pub struct Reading {
    pub armed: bool,
    /// norm of the acceleration in g, less one
    pub accel_deviation: Single,
    /// norm of the raw angular rate in rad/s
    pub gyro_norm: Single,
    /// when it was taken, in microseconds
    pub now: u64,
    /// the bias estimate drawn towards the reading
    pub learned: Vector,
}

impl Reading {
    /// Whether the drone is still: close to 1 g, and not rotating. Disarmed the
    /// bar is much stricter, so that handling is not mistaken for bias.
    pub open spec fn landed(self) -> bool {
        &&& self.accel_deviation.absolute().below(Single { bits: LANDED_ACCEL_TOLERANCE_BITS })
        &&& self.gyro_norm.below(
            Single {
                bits: if self.armed {
                    STILL_ARMED_BITS
                } else {
                    STILL_DISARMED_BITS
                },
            },
        )
    }

    fn is_landed(&self) -> (r: bool)
        ensures
            r == self.landed(),
    {
        let threshold: u32 = if self.armed {
            STILL_ARMED_BITS
        } else {
            STILL_DISARMED_BITS
        };
        self.accel_deviation.abs().lt(Single { bits: LANDED_ACCEL_TOLERANCE_BITS })
            && self.gyro_norm.lt(Single { bits: threshold })
    }
}

/// Learns the gyro bias whenever the drone has been still for a while.
#[derive(Clone, Copy, Debug)]
pub struct BiasTracker {
    pub bias: Vector,
    /// since when the drone has been still
    pub landed_since: Option<u64>,
}

impl BiasTracker {
    /// The tracker after a reading.
    pub open spec fn after(self, reading: Reading) -> BiasTracker {
        if !reading.landed() {
            BiasTracker { bias: self.bias, landed_since: None }
        } else {
            let since = match self.landed_since {
                Some(since) => since,
                None => reading.now,
            };
            BiasTracker {
                bias: if reading.now - since >= LANDED_DEBOUNCE_US {
                    reading.learned
                } else {
                    self.bias
                },
                landed_since: Some(since),
            }
        }
    }

    /// Starts from a known estimate.
    pub fn new_seeded(bias: Vector) -> (r: BiasTracker)
        ensures
            r == (BiasTracker { bias, landed_since: None }),
    {
        BiasTracker { bias, landed_since: None }
    }

    /// Takes in a reading and returns the estimate.
    pub fn update(&mut self, reading: Reading) -> (r: Vector)
        requires
            old(self).landed_since matches Some(since) ==> since <= reading.now,
        ensures
            *final(self) == old(self).after(reading),
            r == final(self).bias,
    {
        if !reading.is_landed() {
            self.landed_since = None;
            return self.bias;
        }
        let since: u64 = match self.landed_since {
            Some(since) => since,
            None => reading.now,
        };
        self.landed_since = Some(since);
        if reading.now - since >= LANDED_DEBOUNCE_US {
            self.bias = reading.learned;
        }
        self.bias
    }

    /// The current estimate.
    pub fn bias(&self) -> (r: Vector)
        ensures
            r == self.bias,
    {
        self.bias
    }
}

/// The tracker after a sequence of readings.
pub open spec fn after_readings(tracker: BiasTracker, readings: Seq<Reading>) -> BiasTracker
    decreases readings.len(),
{
    if readings.len() == 0 {
        tracker
    } else {
        after_readings(tracker, readings.drop_last()).after(readings.last())
    }
}

/// Whether the drone was still in every reading from `i` on.
pub open spec fn still_since(readings: Seq<Reading>, i: int) -> bool {
    &&& 0 <= i < readings.len()
    &&& forall|k: int| i <= k < readings.len() ==> (#[trigger] readings[k]).landed()
}

/// The tracker remembers the first reading of the current stretch of stillness.
proof fn lemma_landed_since(tracker: BiasTracker, readings: Seq<Reading>) -> (i: int)
    requires
        tracker.landed_since is None,
    ensures
        after_readings(tracker, readings).landed_since matches Some(since) ==> {
            &&& still_since(readings, i)
            &&& since == readings[i].now
        },
    decreases readings.len(),
{
    if readings.len() == 0 {
        0
    } else {
        let before = readings.drop_last();
        let last = readings.len() - 1;
        let i = lemma_landed_since(tracker, before);
        if readings[last].landed() && after_readings(tracker, before).landed_since is Some {
            assert forall|k: int| i <= k < readings.len() implies (#[trigger]
            readings[k]).landed() by {
                if k < last {
                    assert(before[k].landed());
                }
            }
            i
        } else {
            last
        }
    }
}

/// The estimate changes only on the ground: whenever a reading changes it, the
/// drone has been still in that reading and in all readings of the two seconds
/// or more before it.
pub proof fn law_bias_is_learned_only_at_rest(tracker: BiasTracker, readings: Seq<Reading>)
    requires
        tracker.landed_since is None,
        readings.len() > 0,
        after_readings(tracker, readings).bias != after_readings(tracker, readings.drop_last()).bias,
    ensures
        exists|i: int| #[trigger]
            still_since(readings, i) && readings.last().now - readings[i].now
                >= LANDED_DEBOUNCE_US,
{
    let i = lemma_landed_since(tracker, readings);
    assert(still_since(readings, i));
}

/// Whether readings come in the order of time.
pub open spec fn in_time_order(readings: Seq<Reading>) -> bool {
    forall|i: int, j: int|
        0 <= i <= j < readings.len() ==> (#[trigger] readings[i]).now <= (
        #[trigger] readings[j]).now
}

/// While the drone is still, the tracker counts from no later than any of the
/// readings since.
proof fn lemma_counts_from(tracker: BiasTracker, readings: Seq<Reading>, i: int)
    requires
        tracker.landed_since is None,
        in_time_order(readings),
        still_since(readings, i),
    ensures
        after_readings(tracker, readings).landed_since matches Some(since) && since
            <= readings[i].now,
    decreases readings.len(),
{
    let before = readings.drop_last();
    let last = readings.len() - 1;
    assert(readings[last].landed());
    if i < last {
        assert forall|k: int| i <= k < before.len() implies (#[trigger] before[k]).landed() by {
            assert(readings[k].landed());
        }
        assert forall|a: int, b: int| 0 <= a <= b < before.len() implies (#[trigger]
        before[a]).now <= (#[trigger] before[b]).now by {
            assert(readings[a].now <= readings[b].now);
        }
        lemma_counts_from(tracker, before, i);
    } else {
        let j = lemma_landed_since(tracker, before);
        if after_readings(tracker, before).landed_since is Some {
            assert(readings[j].now <= readings[i].now);
        }
    }
}

/// At rest the estimate is learned: once the drone has been still from some
/// reading on for two seconds, the estimate is the one drawn towards the last
/// reading.
pub proof fn law_bias_is_learned_at_rest(tracker: BiasTracker, readings: Seq<Reading>, i: int)
    requires
        tracker.landed_since is None,
        in_time_order(readings),
        still_since(readings, i),
        readings.last().now - readings[i].now >= LANDED_DEBOUNCE_US,
    ensures
        after_readings(tracker, readings).bias == readings.last().learned,
{
    let before = readings.drop_last();
    let last = readings.len() - 1;
    assert(readings[last].landed());
    assert(i < last);
    assert forall|k: int| i <= k < before.len() implies (#[trigger] before[k]).landed() by {
        assert(readings[k].landed());
    }
    assert forall|a: int, b: int| 0 <= a <= b < before.len() implies (#[trigger]
    before[a]).now <= (#[trigger] before[b]).now by {
        assert(readings[a].now <= readings[b].now);
    }
    lemma_counts_from(tracker, before, i);
}

/// Why a seeded estimate is what it is.
#[derive(Clone, Copy, Debug, PartialEq, Eq, Structural)]
pub enum SeedOutcome {
    /// every read failed: the estimate starts at zero
    NoReads,
    /// the readings spread too far, the drone was moved: the estimate starts at zero
    Moved,
    /// the estimate starts at the mean of the readings
    Seeded,
}

/// Collects the readings at boot. `mean` and `m2` are running sums over the
/// successful ones (the sum of squared deviations in `m2`).
#[derive(Clone, Copy, Debug)]
pub struct BiasSeeder {
    pub taken: u32,
    pub successful: u32,
    pub mean: Vector,
    pub m2: Vector,
}

impl BiasSeeder {
    /// No more readings than asked for, and no more successes than readings.
    pub open spec fn well_formed(self) -> bool {
        self.successful <= self.taken <= BOOT_SAMPLES
    }

    pub fn new() -> (r: BiasSeeder)
        ensures
            r == (BiasSeeder { taken: 0, successful: 0, mean: Vector::zero(), m2: Vector::zero() }),
            r.well_formed(),
    {
        let zeros: Vector = Vector::zeros();
        BiasSeeder { taken: 0, successful: 0, mean: zeros, m2: zeros }
    }

    /// Whether another reading is to be taken.
    pub fn wants_reading(&self) -> (r: bool)
        ensures
            r == (self.taken < BOOT_SAMPLES),
    {
        self.taken < BOOT_SAMPLES
    }

    /// Notes the outcome of a reading: `None` if it failed, otherwise the
    /// running mean and squared deviations with the reading included.
    pub fn record(&mut self, read: Option<(Vector, Vector)>)
        requires
            old(self).well_formed(),
            old(self).taken < BOOT_SAMPLES,
        ensures
            final(self).well_formed(),
            *final(self) == match read {
                Some((mean, m2)) => BiasSeeder {
                    taken: (old(self).taken + 1) as u32,
                    successful: (old(self).successful + 1) as u32,
                    mean,
                    m2,
                },
                None => BiasSeeder { taken: (old(self).taken + 1) as u32, ..*old(self) },
            },
    {
        self.taken = self.taken + 1;
        match read {
            Some((mean, m2)) => {
                self.successful = self.successful + 1;
                self.mean = mean;
                self.m2 = m2;
            },
            None => {},
        }
    }

    /// Turns the readings into a tracker. `stddev` is the standard deviation per
    /// axis and matters only if there was a successful reading.
    pub fn finish(&self, stddev: Vector) -> (r: (SeedOutcome, BiasTracker))
        ensures
            r.0 == if self.successful == 0 {
                SeedOutcome::NoReads
            } else if moved(stddev) {
                SeedOutcome::Moved
            } else {
                SeedOutcome::Seeded
            },
            r.1 == (BiasTracker {
                bias: if r.0 == SeedOutcome::Seeded {
                    self.mean
                } else {
                    Vector::zero()
                },
                landed_since: None,
            }),
    {
        let zeros: Vector = Vector::zeros();
        let limit: Single = Single { bits: STDDEV_REJECT_BITS };
        if self.successful == 0 {
            return (SeedOutcome::NoReads, BiasTracker::new_seeded(zeros));
        }
        if limit.lt(stddev.x) || limit.lt(stddev.y) || limit.lt(stddev.z) {
            return (SeedOutcome::Moved, BiasTracker::new_seeded(zeros));
        }
        (SeedOutcome::Seeded, BiasTracker::new_seeded(self.mean))
    }
}

/// Whether any axis spreads beyond the limit.
pub open spec fn moved(stddev: Vector) -> bool {
    let limit = Single { bits: STDDEV_REJECT_BITS };
    limit.below(stddev.x) || limit.below(stddev.y) || limit.below(stddev.z)
}

/// What counts as still, and what a reading does. Still is a deviation from 1 g of
/// less than 0.1 to either side and a rate below 0.5 armed or 0.05 disarmed; a
/// reading that is no number is not still. Once the drone has been still for two
/// seconds the estimate is the one drawn towards the reading; before that and while
/// it moves, it stays. Stillness counts from its first reading on, and moving ends it.
pub proof fn law_bias_follows_two_seconds_of_stillness(
    tracker: &mut BiasTracker,
    reading: Reading,
    r: Vector,
    bias: Vector,
)
    requires
        call_ensures(BiasTracker::update, (tracker, reading), r),
        call_ensures(BiasTracker::bias, (tracker,), bias),
    ensures
        bias == old(tracker).bias,
        r == final(tracker).bias,
        ({
            let still = reading.accel_deviation.bits % 0x8000_0000 < 0x3dcc_cccd && (
            reading.gyro_norm.bits < (if reading.armed {
                0x3f00_0000u32
            } else {
                0x3d4c_cccdu32
            }) || 0x8000_0000 <= reading.gyro_norm.bits <= 0xff80_0000);
            &&& still <==> final(tracker).landed_since is Some
            &&& !still ==> final(tracker).bias == old(tracker).bias
            &&& still && old(tracker).landed_since is None ==> {
                &&& final(tracker).landed_since == Some(reading.now)
                &&& final(tracker).bias == old(tracker).bias
            }
            &&& still ==> (old(tracker).landed_since matches Some(since) ==> {
                &&& final(tracker).landed_since == Some(since)
                &&& reading.now - since >= 2_000_000 ==> final(tracker).bias == reading.learned
                &&& reading.now - since < 2_000_000 ==> final(tracker).bias == old(tracker).bias
            })
        }),
{
    let tolerance = Single { bits: LANDED_ACCEL_TOLERANCE_BITS };
    let limit = Single {
        bits: if reading.armed {
            STILL_ARMED_BITS
        } else {
            STILL_DISARMED_BITS
        },
    };
    crate::single::lemma_value_order(reading.accel_deviation.absolute(), tolerance);
    crate::single::lemma_value_order(reading.gyro_norm, limit);
}

/// Three hundred readings are taken at boot. Each counts, one that succeeded counts
/// as such and brings the running sums, and one that failed leaves them. A tracker
/// made from an estimate holds it and has not seen stillness yet.
pub proof fn law_seeder_takes_three_hundred_readings(
    fresh: BiasSeeder,
    seeder: &mut BiasSeeder,
    read: Option<(Vector, Vector)>,
    wants: bool,
    estimate: Vector,
    seeded: BiasTracker,
)
    requires
        old(seeder).taken < 300,
        old(seeder).successful <= old(seeder).taken,
        call_ensures(BiasSeeder::new, (), fresh),
        call_ensures(BiasSeeder::wants_reading, (seeder,), wants),
        call_ensures(BiasSeeder::record, (seeder, read), ()),
        call_ensures(BiasTracker::new_seeded, (estimate,), seeded),
    ensures
        fresh.taken == 0 && fresh.successful == 0,
        fresh.mean.x.bits == 0 && fresh.mean.y.bits == 0 && fresh.mean.z.bits == 0,
        fresh.m2.x.bits == 0 && fresh.m2.y.bits == 0 && fresh.m2.z.bits == 0,
        wants,
        final(seeder).taken == old(seeder).taken + 1,
        read matches Some(sums) ==> {
            &&& final(seeder).successful == old(seeder).successful + 1
            &&& final(seeder).mean == sums.0
            &&& final(seeder).m2 == sums.1
        },
        read is None ==> {
            &&& final(seeder).successful == old(seeder).successful
            &&& final(seeder).mean == old(seeder).mean
            &&& final(seeder).m2 == old(seeder).m2
        },
        seeded.bias == estimate && seeded.landed_since is None,
{
}

/// Readings stop at three hundred. The estimate starts at their mean exactly if one
/// succeeded and no axis spreads by more than 0.05; otherwise it starts at zero, and
/// the outcome says why.
pub proof fn law_steady_readings_seed_the_bias(
    seeder: BiasSeeder,
    stddev: Vector,
    wants: bool,
    r: (SeedOutcome, BiasTracker),
)
    requires
        call_ensures(BiasSeeder::wants_reading, (&seeder,), wants),
        call_ensures(BiasSeeder::finish, (&seeder, stddev), r),
    ensures
        wants <==> seeder.taken < 300,
        ({
            let moved = 0x3d4c_cccd < stddev.x.bits <= 0x7f80_0000 || 0x3d4c_cccd < stddev.y.bits
                <= 0x7f80_0000 || 0x3d4c_cccd < stddev.z.bits <= 0x7f80_0000;
            &&& r.0 == SeedOutcome::NoReads <==> seeder.successful == 0
            &&& r.0 == SeedOutcome::Moved <==> seeder.successful > 0 && moved
            &&& seeder.successful > 0 && !moved ==> r.1.bias == seeder.mean
            &&& seeder.successful == 0 || moved ==> r.1.bias.x.bits == 0 && r.1.bias.y.bits == 0
                && r.1.bias.z.bits == 0
            &&& r.1.landed_since is None
        }),
{
    let limit = Single { bits: STDDEV_REJECT_BITS };
    crate::single::lemma_value_order(limit, stddev.x);
    crate::single::lemma_value_order(limit, stddev.y);
    crate::single::lemma_value_order(limit, stddev.z);
}

} // verus!
