//! Motor output: ESC throttle values and the bench test schedule.

use crate::single::Single;
use vstd::prelude::*;

verus! {

/// Lowest ESC value at which a motor turns. Below it lies the idle floor that
/// is never commanded while armed; stopping is a command of its own.
pub const THROTTLE_MIN: u16 = 100;

/// Highest ESC value.
pub const THROTTLE_MAX: u16 = 1999;

/// Number of ESC values above the lowest.
pub const THROTTLE_RANGE: u16 = 1899;

/// A motor level, cut off to [0, 1].
pub fn motor_level(v: Single) -> (r: Single)
    ensures
        r == v.clamped(Single { bits: 0 }, Single { bits: crate::mixer::ONE_BITS }),
        !v.nan() ==> (Single { bits: 0 }).at_most(r) && r.at_most(
            Single { bits: crate::mixer::ONE_BITS },
        ),
{
    let zero: Single = Single { bits: 0 };
    let one: Single = Single { bits: crate::mixer::ONE_BITS };
    proof {
        crate::single::lemma_magnitude_increases(zero, one);
    }
    v.clamp(zero, one)
}

/// The ESC value of a level given in whole steps above the idle floor.
pub fn esc_value(steps: u16) -> (r: u16)
    requires
        steps <= THROTTLE_RANGE,
    ensures
        r == THROTTLE_MIN + steps,
        THROTTLE_MIN <= r <= THROTTLE_MAX,
{
    THROTTLE_MIN + steps
}

/// Steps over which the bench test ramps down.
pub const RAMP_STEPS: u32 = 100;

/// Iterations for which the bench test holds its level.
pub const HOLD_ITERATIONS: u32 = 100;

/// Pause after an iteration of the bench test in milliseconds.
pub const STEP_DELAY_MS: u64 = 20;

/// Steps of the bench test up to and including switching the motors off.
pub const BENCH_STEPS: u32 = 203;

/// What the bench test does next.
#[derive(Clone, Copy, Debug, PartialEq, Eq, Structural)]
pub enum BenchAction {
    /// set all motors to `ramp` out of [`RAMP_STEPS`] parts of the test level,
    /// and pause if `pause`
    Spin { ramp: u32, pause: bool },
    /// switch the motors off
    Off,
    /// nothing more
    Done,
}

/// The action of a step: straight to the test level, hold it, ramp down to
/// nothing, off.
pub open spec fn bench_action(step: int) -> BenchAction {
    if step == 0 {
        BenchAction::Spin { ramp: RAMP_STEPS, pause: false }
    } else if step <= HOLD_ITERATIONS {
        BenchAction::Spin { ramp: RAMP_STEPS, pause: true }
    } else if step <= HOLD_ITERATIONS + RAMP_STEPS + 1 {
        BenchAction::Spin {
            ramp: (HOLD_ITERATIONS + RAMP_STEPS + 1 - step) as u32,
            pause: true,
        }
    } else if step == HOLD_ITERATIONS + RAMP_STEPS + 2 {
        BenchAction::Off
    } else {
        BenchAction::Done
    }
}

/// Progress of the bench test.
#[derive(Clone, Copy, Debug)]
pub struct BenchTest {
    pub step: u32,
}

impl BenchTest {
    pub fn new() -> (r: BenchTest)
        ensures
            r.step == 0,
    {
        BenchTest { step: 0 }
    }

    /// The next action.
    pub fn next(&mut self) -> (r: BenchAction)
        ensures
            r == bench_action(old(self).step as int),
            final(self).step == if r == BenchAction::Done {
                old(self).step as int
            } else {
                old(self).step + 1
            },
    {
        let step: u32 = self.step;
        if step >= BENCH_STEPS {
            return BenchAction::Done;
        }
        self.step = step + 1;
        if step == 0 {
            BenchAction::Spin { ramp: RAMP_STEPS, pause: false }
        } else if step <= HOLD_ITERATIONS {
            BenchAction::Spin { ramp: RAMP_STEPS, pause: true }
        } else if step <= HOLD_ITERATIONS + RAMP_STEPS + 1 {
            BenchAction::Spin { ramp: HOLD_ITERATIONS + RAMP_STEPS + 1 - step, pause: true }
        } else {
            BenchAction::Off
        }
    }
}

/// The bench test winds down: the level never rises from one step to the next,
/// never passes the test level, has reached nothing in the step before the
/// motors go off, and nothing follows after that.
pub proof fn law_bench_test_winds_down(step: int)
    requires
        step >= 0,
    ensures
        bench_action(step) matches BenchAction::Spin { ramp, .. } ==> ramp <= RAMP_STEPS,
        bench_action(step + 1) matches BenchAction::Spin { ramp, .. } ==> bench_action(step)
            matches BenchAction::Spin { ramp: earlier, .. } && ramp <= earlier,
        bench_action(step + 1) == BenchAction::Off ==> bench_action(step) == (BenchAction::Spin {
            ramp: 0,
            pause: true,
        }),
        bench_action(step) == BenchAction::Off ==> bench_action(step + 1) == BenchAction::Done,
        bench_action(step) == BenchAction::Done ==> bench_action(step + 1) == BenchAction::Done,
{
}

/// A level between zero and one is kept, one below is cut to zero and one above to
/// one; what is no number is passed on.
pub proof fn law_level_is_cut_to_the_range(v: Single, r: Single)
    requires
        call_ensures(motor_level, (v,), r),
    ensures
        v.bits <= 0x3f80_0000 ==> r == v,
        0x3f80_0000 < v.bits <= 0x7f80_0000 ==> r.bits == 0x3f80_0000,
        v.bits == 0x8000_0000 ==> r == v,
        0x8000_0000 < v.bits <= 0xff80_0000 ==> r.bits == 0,
        v.bits % 0x8000_0000 > 0x7f80_0000 ==> r == v,
{
    let zero = Single { bits: 0 };
    let one = Single { bits: crate::mixer::ONE_BITS };
    crate::single::lemma_value_order(v, zero);
    crate::single::lemma_value_order(one, v);
}

/// ESC values start at 100 and rise one by one with the steps.
pub proof fn law_esc_values_start_at_a_hundred(steps: u16, r: u16)
    requires
        call_ensures(esc_value, (steps,), r),
    ensures
        r == 100 + steps,
        steps <= 1899 ==> r <= 1999,
{
}

/// The bench test step by step: to the test level at once, a hundred pauses there,
/// a hundred and one steps down to nothing, each a hundredth lower than the one
/// before, then off, then nothing more. Every step but the last kind counts.
pub proof fn law_bench_test_schedule(test: &mut BenchTest, r: BenchAction, fresh: BenchTest)
    requires
        call_ensures(BenchTest::next, (test,), r),
        call_ensures(BenchTest::new, (), fresh),
    ensures
        fresh.step == 0,
        old(test).step == 0 ==> r == (BenchAction::Spin { ramp: 100, pause: false }),
        1 <= old(test).step <= 100 ==> r == (BenchAction::Spin { ramp: 100, pause: true }),
        101 <= old(test).step <= 201 ==> (r matches BenchAction::Spin { ramp, pause: true } && ramp
            + old(test).step == 201),
        old(test).step == 202 <==> r == BenchAction::Off,
        old(test).step >= 203 <==> r == BenchAction::Done,
        old(test).step < 203 ==> final(test).step == old(test).step + 1,
        old(test).step >= 203 ==> final(test).step == old(test).step,
{
}

} // verus!
