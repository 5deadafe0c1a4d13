//! State of a rate controller.
//!
//! The controller combines the current error, its accumulated past and its
//! rate of change. The sums and products are the caller's; what is kept from
//! tick to tick, when it starts over and how far the accumulated error may grow
//! is decided here.

use crate::rounding::{
    lemma_bounded_is_finite, lemma_finite_is_bounded, lemma_product_is_finite,
    lemma_rest_is_finite, rounded_product, rounded_sum, ONE_BITS,
};
use crate::single::{lemma_value_order, Single};
use vstd::prelude::*;

verus! {

/// Bit pattern of the NaN that stands for a missing previous error.
pub const NO_ERROR_BITS: u32 = 0x7fc0_0000;

/// Bit pattern of the longest time step in seconds that is integrated: 0.5.
pub const LONGEST_STEP_BITS: u32 = 0x3f00_0000;

/// Whether a time step is no basis for integration: none at all, backwards, or
/// impossibly long.
pub open spec fn implausible_step(dt: Single) -> bool {
    dt.at_most(Single { bits: 0 }) || (Single { bits: LONGEST_STEP_BITS }).below(dt)
}

/// What a tick starts from.
#[derive(Clone, Copy, Debug)]
pub enum PidStep {
    /// the time step is implausible: start over, and answer the error alone
    Restart,
    /// integrate, and derive from the previous error if there is one
    Advance { previous: Option<Single> },
}

/// The terms that make up the output of a tick, to be weighted by the gains.
#[derive(Clone, Copy, Debug)]
pub enum PidTerms {
    /// the error alone
    Proportional,
    /// the error, the accumulated error and the filtered derivative
    Full { integral: Single, derivative: Single },
}

/// A rate controller.
#[derive(Clone, Copy, Debug)]
pub struct Pid {
    /// proportional gain
    pub kp: Single,
    /// integral gain
    pub ki: Single,
    /// derivative gain
    pub kd: Single,
    /// accumulated error, within the limit to either side
    pub integral: Single,
    /// error of the previous tick, a NaN until there is one
    pub prev_error: Single,
    /// bound on the accumulated error
    pub integral_limit: Single,
    /// share of the accumulated error that decays per second
    pub leak: Single,
    /// filtered derivative
    pub d_filter: Single,
}

impl Pid {
    /// The limit is a number and not negative.
    pub open spec fn well_formed(self) -> bool {
        (Single { bits: 0 }).at_most(self.integral_limit)
    }

    /// The accumulated error lies within the limit, unless the arithmetic broke
    /// down and it is a NaN.
    pub open spec fn bounded(self) -> bool {
        self.integral.nan() || self.integral_limit.negated().at_most(self.integral)
            && self.integral.at_most(self.integral_limit)
    }

    /// Whether two controllers have the same gains, limit and leak.
    pub open spec fn same_settings(self, other: Pid) -> bool {
        &&& self.kp == other.kp
        &&& self.ki == other.ki
        &&& self.kd == other.kd
        &&& self.integral_limit == other.integral_limit
        &&& self.leak == other.leak
    }

    /// The controller with its gains and no past.
    pub open spec fn cleared(self) -> Pid {
        Pid {
            integral: Single { bits: 0 },
            d_filter: Single { bits: 0 },
            prev_error: Single { bits: NO_ERROR_BITS },
            ..self
        }
    }

    pub fn new(kp: Single, ki: Single, kd: Single, integral_limit: Single, leak: Single) -> (r: Pid)
        ensures
            r == r.cleared(),
            r.kp == kp,
            r.ki == ki,
            r.kd == kd,
            r.integral_limit == integral_limit,
            r.leak == leak,
            r.well_formed() ==> r.bounded(),
    {
        let r: Pid = Pid {
            kp,
            ki,
            kd,
            integral: Single { bits: 0 },
            prev_error: Single { bits: NO_ERROR_BITS },
            integral_limit,
            leak,
            d_filter: Single { bits: 0 },
        };
        proof {
            lemma_cleared_is_bounded(r);
        }
        r
    }

    /// How the coming tick is to be computed.
    pub fn step(&self, dt: Single) -> (r: PidStep)
        ensures
            r == if implausible_step(dt) {
                PidStep::Restart
            } else {
                PidStep::Advance {
                    previous: if self.prev_error.nan() {
                        None
                    } else {
                        Some(self.prev_error)
                    },
                }
            },
    {
        if dt.le(Single { bits: 0 }) || (Single { bits: LONGEST_STEP_BITS }).lt(dt) {
            PidStep::Restart
        } else if self.prev_error.is_nan() {
            PidStep::Advance { previous: None }
        } else {
            PidStep::Advance { previous: Some(self.prev_error) }
        }
    }

    /// The share of the accumulated error that survives a tick: `rest` is what
    /// the decay leaves of the whole, which may be less than nothing.
    pub fn retained(rest: Single) -> (r: Single)
        ensures
            r == rest.greater(Single { bits: 0 }),
            (Single { bits: 0 }).at_most(r),
    {
        rest.max(Single { bits: 0 })
    }

    /// Advances the controller by one tick. `accumulated` is the accumulated
    /// error with this tick's added, before the limit; `derivative` the filtered
    /// derivative with this tick's included. Neither matters when the time step
    /// is implausible.
    pub fn update(
        &mut self,
        error: Single,
        dt: Single,
        accumulated: Single,
        derivative: Single,
    ) -> (r: PidTerms)
        requires
            !implausible_step(dt) ==> old(self).well_formed(),
        ensures
            *final(self) == if implausible_step(dt) {
                old(self).cleared()
            } else {
                Pid {
                    integral: accumulated.clamped(
                        old(self).integral_limit.negated(),
                        old(self).integral_limit,
                    ),
                    prev_error: error,
                    d_filter: derivative,
                    ..*old(self)
                }
            },
            r == if implausible_step(dt) {
                PidTerms::Proportional
            } else {
                PidTerms::Full { integral: final(self).integral, derivative }
            },
            final(self).well_formed() ==> final(self).bounded(),
    {
        if dt.le(Single { bits: 0 }) || (Single { bits: LONGEST_STEP_BITS }).lt(dt) {
            self.reset();
            return PidTerms::Proportional;
        }
        proof {
            crate::single::lemma_magnitude_sign(Single { bits: 0 });
        }
        let lowest: Single = self.integral_limit.neg();
        self.integral = accumulated.clamp(lowest, self.integral_limit);
        self.prev_error = error;
        self.d_filter = derivative;
        PidTerms::Full { integral: self.integral, derivative }
    }

    /// Forgets the past.
    pub fn reset(&mut self)
        ensures
            *final(self) == old(self).cleared(),
            final(self).well_formed() ==> final(self).bounded(),
    {
        self.integral = Single { bits: 0 };
        self.d_filter = Single { bits: 0 };
        self.prev_error = Single { bits: NO_ERROR_BITS };
        proof {
            lemma_cleared_is_bounded(*self);
        }
    }
}

/// Nothing accumulated is within any limit.
proof fn lemma_cleared_is_bounded(pid: Pid)
    requires
        pid.integral == (Single { bits: 0 }),
    ensures
        pid.well_formed() ==> pid.bounded(),
{
    let limit = pid.integral_limit;
    crate::single::lemma_magnitude_sign(Single { bits: 0 });
    assert(limit.negated().unsigned_bits() == limit.unsigned_bits());
    assert(!(Single { bits: 0 }).nan());
}

/// One call on a controller.
pub enum PidCall {
    Reset,
    Update { error: Single, dt: Single, accumulated: Single, derivative: Single },
}

/// The controller after a call.
pub open spec fn after_call(pid: Pid, call: PidCall) -> Pid {
    match call {
        PidCall::Reset => pid.cleared(),
        PidCall::Update { error, dt, accumulated, derivative } => if implausible_step(dt) {
            pid.cleared()
        } else {
            Pid {
                integral: accumulated.clamped(pid.integral_limit.negated(), pid.integral_limit),
                prev_error: error,
                d_filter: derivative,
                ..pid
            }
        },
    }
}

/// The controller after a sequence of calls.
pub open spec fn after_calls(pid: Pid, calls: Seq<PidCall>) -> Pid
    decreases calls.len(),
{
    if calls.len() == 0 {
        pid
    } else {
        after_call(after_calls(pid, calls.drop_last()), calls.last())
    }
}

/// Anti-windup: whatever calls are made, the accumulated error never leaves the
/// limit, and the gains and the limit stay what they were.
pub proof fn law_integral_never_winds_up(pid: Pid, calls: Seq<PidCall>)
    requires
        pid.well_formed(),
        pid.bounded(),
    ensures
        after_calls(pid, calls).bounded(),
        after_calls(pid, calls).same_settings(pid),
    decreases calls.len(),
{
    if calls.len() > 0 {
        law_integral_never_winds_up(pid, calls.drop_last());
        let before = after_calls(pid, calls.drop_last());
        let limit = pid.integral_limit;
        lemma_cleared_is_bounded(before.cleared());
        assert(limit.negated().unsigned_bits() == limit.unsigned_bits());
        assert(limit.negated().value() == -limit.value());
        crate::single::lemma_magnitude_sign(Single { bits: 0 });
    }
}

/// As long as no call hands in a NaN as the accumulated error, it is a number
/// within the limit after every call.
pub proof fn law_integral_stays_a_number_within_limit(pid: Pid, calls: Seq<PidCall>)
    requires
        pid.well_formed(),
        pid.bounded(),
        !pid.integral.nan(),
        forall|i: int|
            0 <= i < calls.len() ==> ((#[trigger] calls[i]) matches PidCall::Update {
                accumulated,
                ..
            } ==> !accumulated.nan()),
    ensures
        pid.integral_limit.negated().at_most(after_calls(pid, calls).integral),
        after_calls(pid, calls).integral.at_most(pid.integral_limit),
    decreases calls.len(),
{
    law_integral_never_winds_up(pid, calls);
    if calls.len() > 0 {
        let before = calls.drop_last();
        assert forall|i: int| 0 <= i < before.len() implies ((#[trigger]
        before[i]) matches PidCall::Update { accumulated, .. } ==> !accumulated.nan()) by {
            assert(before[i] == calls[i]);
        }
        law_integral_stays_a_number_within_limit(pid, before);
        law_integral_never_winds_up(pid, before);
        let last = calls[calls.len() - 1];
        let limit = pid.integral_limit;
        assert(limit.negated().unsigned_bits() == limit.unsigned_bits());
        assert(limit.negated().nan() == limit.nan());
        assert(!(Single { bits: 0 }).nan());
        assert(last == calls.last());
    }
}

/// Whether `accumulated` is the accumulated error of a tick: what the decay leaves
/// of it, plus this tick's error times the time step, each step rounded.
pub open spec fn accumulation(
    pid: Pid,
    error: Single,
    dt: Single,
    decay: Single,
    rest: Single,
    kept: Single,
    added: Single,
    accumulated: Single,
) -> bool {
    &&& rounded_product(pid.leak, dt, decay)
    &&& rounded_sum(Single { bits: ONE_BITS }, decay.negated(), rest)
    &&& rounded_product(pid.integral, rest.greater(Single { bits: 0 }), kept)
    &&& rounded_product(error, dt, added)
    &&& rounded_sum(kept, added, accumulated)
}

/// Whether a call has finite arguments and hands in the accumulated error that
/// they give.
pub open spec fn computed(pid: Pid, call: PidCall) -> bool {
    match call {
        PidCall::Reset => true,
        PidCall::Update { error, dt, accumulated, .. } => {
            &&& error.finite()
            &&& dt.finite()
            &&& implausible_step(dt) || exists|
                decay: Single,
                rest: Single,
                kept: Single,
                added: Single,
            | #[trigger] accumulation(pid, error, dt, decay, rest, kept, added, accumulated)
        },
    }
}

/// Finite arguments never accumulate to a NaN.
proof fn lemma_accumulates_to_a_number(
    pid: Pid,
    error: Single,
    dt: Single,
    decay: Single,
    rest: Single,
    kept: Single,
    added: Single,
    accumulated: Single,
)
    requires
        accumulation(pid, error, dt, decay, rest, kept, added, accumulated),
        dt.finite(),
        !implausible_step(dt),
    ensures
        !accumulated.nan(),
{
    let zero = Single { bits: 0 };
    let half = Single { bits: LONGEST_STEP_BITS };
    lemma_finite_is_bounded(dt);
    assert(zero.value() == 0 && !zero.nan() && !half.nan());
    lemma_value_order(half, Single { bits: ONE_BITS });
    lemma_product_is_finite(pid.leak, dt, decay);
    lemma_rest_is_finite(decay, rest);
    lemma_product_is_finite(error, dt, added);
    lemma_finite_is_bounded(added);
}

/// Called with finite arguments, whatever their order and number, the controller
/// keeps its accumulated error a number within the limit, can always be updated
/// again, and never changes its settings.
pub proof fn law_finite_calls_keep_integral_within_limit(pid: Pid, calls: Seq<PidCall>)
    requires
        pid.well_formed(),
        pid.integral_limit.finite(),
        pid.bounded(),
        !pid.integral.nan(),
        forall|i: int|
            0 <= i < calls.len() ==> computed(
                after_calls(pid, calls.take(i)),
                #[trigger] calls[i],
            ),
    ensures
        pid.integral_limit.negated().at_most(after_calls(pid, calls).integral),
        after_calls(pid, calls).integral.at_most(pid.integral_limit),
        after_calls(pid, calls).integral.finite(),
        after_calls(pid, calls).well_formed(),
        after_calls(pid, calls).same_settings(pid),
    decreases calls.len(),
{
    law_integral_never_winds_up(pid, calls);
    if calls.len() > 0 {
        let n = calls.len() - 1;
        let before = calls.drop_last();
        assert forall|i: int| 0 <= i < before.len() implies computed(
            after_calls(pid, before.take(i)),
            #[trigger] before[i],
        ) by {
            assert(before.take(i) =~= calls.take(i));
            assert(computed(after_calls(pid, calls.take(i)), calls[i]));
        }
        law_finite_calls_keep_integral_within_limit(pid, before);
        assert(calls.take(n) =~= before);
        assert(computed(after_calls(pid, before), calls[n]));
        lemma_computed_call_gives_a_number(after_calls(pid, before), calls[n]);
    }
    lemma_within_limit_is_finite(after_calls(pid, calls));
}

/// A call with finite arguments leaves a number.
proof fn lemma_computed_call_gives_a_number(pid: Pid, call: PidCall)
    requires
        computed(pid, call),
        pid.well_formed(),
    ensures
        !after_call(pid, call).integral.nan(),
{
    let limit = pid.integral_limit;
    assert(limit.negated().unsigned_bits() == limit.unsigned_bits());
    assert(limit.negated().nan() == limit.nan());
    assert(!(Single { bits: 0 }).nan());
    if let PidCall::Update { error, dt, accumulated, .. } = call {
        if !implausible_step(dt) {
            let (decay, rest, kept, added) = choose|
                decay: Single,
                rest: Single,
                kept: Single,
                added: Single,
            | #[trigger] accumulation(pid, error, dt, decay, rest, kept, added, accumulated);
            lemma_accumulates_to_a_number(pid, error, dt, decay, rest, kept, added, accumulated);
        }
    }
}

/// What lies within a finite limit is finite.
proof fn lemma_within_limit_is_finite(pid: Pid)
    requires
        pid.bounded(),
        !pid.integral.nan(),
        pid.integral_limit.finite(),
    ensures
        pid.integral.finite(),
{
    let limit = pid.integral_limit;
    lemma_finite_is_bounded(limit);
    assert(limit.negated().unsigned_bits() == limit.unsigned_bits());
    assert(limit.negated().value() == -limit.value());
    lemma_bounded_is_finite(pid.integral);
}

/// A reset leaves nothing of the past: two controllers with the same settings are
/// the same after it, and the next plausible tick derives from no previous error.
pub proof fn law_reset_forgets(pid: Pid, other: Pid)
    requires
        pid.same_settings(other),
    ensures
        pid.cleared() == other.cleared(),
        pid.cleared().prev_error.nan(),
{
}

/// A time step counts if it is above zero and at most 0.5, or no number at all: then
/// the tick advances from the previous error, if there is one. Any other starts over.
pub proof fn law_plausible_steps_advance(pid: Pid, dt: Single, r: PidStep)
    requires
        call_ensures(Pid::step, (&pid, dt), r),
    ensures
        r is Restart <==> 0x3f00_0000 < dt.bits <= 0x7f80_0000 || dt.bits == 0 || 0x8000_0000
            <= dt.bits <= 0xff80_0000,
        r matches PidStep::Advance { previous } ==> {
            &&& previous is Some <==> pid.prev_error.bits % 0x8000_0000 <= 0x7f80_0000
            &&& previous matches Some(error) ==> error == pid.prev_error
        },
{
    lemma_step_order(dt);
}

/// Time steps on their patterns.
proof fn lemma_step_order(dt: Single)
    ensures
        implausible_step(dt) <==> 0x3f00_0000 < dt.bits <= 0x7f80_0000 || dt.bits == 0
            || 0x8000_0000 <= dt.bits <= 0xff80_0000,
{
    lemma_value_order(Single { bits: 0 }, dt);
    lemma_value_order(Single { bits: LONGEST_STEP_BITS }, dt);
}

/// A plausible tick keeps the error for the next one, takes on the derivative, and
/// takes on the accumulated error as far as the limit to either side allows; what it
/// keeps is what it answers with.
pub proof fn law_tick_accumulates_within_the_limit(
    pid: &mut Pid,
    error: Single,
    dt: Single,
    accumulated: Single,
    derivative: Single,
    r: PidTerms,
)
    requires
        !old(pid).integral_limit.nan(),
        old(pid).integral_limit.value() >= 0,
        call_ensures(Pid::update, (pid, error, dt, accumulated, derivative), r),
        0 < dt.bits <= 0x3f00_0000 || 0x7f80_0000 < dt.bits < 0x8000_0000 || 0xff80_0000 < dt.bits,
    ensures
        final(pid).prev_error == error,
        final(pid).d_filter == derivative,
        ({
            let limit = old(pid).integral_limit.value();
            &&& accumulated.nan() ==> final(pid).integral == accumulated
            &&& !accumulated.nan() && -limit <= accumulated.value() <= limit
                ==> final(pid).integral == accumulated
            &&& !accumulated.nan() && accumulated.value() > limit ==> final(pid).integral
                == old(pid).integral_limit
            &&& !accumulated.nan() && accumulated.value() < -limit
                ==> final(pid).integral.value() == -limit && !final(pid).integral.nan()
        }),
        r == (PidTerms::Full { integral: final(pid).integral, derivative }),
        final(pid).kp == old(pid).kp && final(pid).ki == old(pid).ki && final(pid).kd
            == old(pid).kd,
        final(pid).integral_limit == old(pid).integral_limit && final(pid).leak
            == old(pid).leak,
{
    lemma_step_order(dt);
    let limit = old(pid).integral_limit;
    assert(limit.negated().unsigned_bits() == limit.unsigned_bits());
    assert(limit.negated().value() == -limit.value());
}

/// Starting over, by a time step that does not count or by a reset, leaves nothing of
/// the past and every setting; such a tick answers with the error alone.
pub proof fn law_starting_over_keeps_settings_only(
    pid: &mut Pid,
    error: Single,
    dt: Single,
    accumulated: Single,
    derivative: Single,
    r: PidTerms,
    other: &mut Pid,
)
    requires
        call_ensures(Pid::update, (pid, error, dt, accumulated, derivative), r),
        0x3f00_0000 < dt.bits <= 0x7f80_0000 || dt.bits == 0 || 0x8000_0000 <= dt.bits
            <= 0xff80_0000,
        call_ensures(Pid::reset, (other,), ()),
    ensures
        r is Proportional,
        final(pid).integral.bits == 0 && final(pid).d_filter.bits == 0,
        final(pid).prev_error.bits % 0x8000_0000 > 0x7f80_0000,
        final(pid).kp == old(pid).kp && final(pid).ki == old(pid).ki && final(pid).kd
            == old(pid).kd,
        final(pid).integral_limit == old(pid).integral_limit && final(pid).leak
            == old(pid).leak,
        final(other).integral.bits == 0 && final(other).d_filter.bits == 0,
        final(other).prev_error.bits % 0x8000_0000 > 0x7f80_0000,
        final(other).kp == old(other).kp && final(other).ki == old(other).ki
            && final(other).kd == old(other).kd,
        final(other).integral_limit == old(other).integral_limit && final(other).leak
            == old(other).leak,
{
    lemma_step_order(dt);
}

/// A controller starts with the settings it is given and no past. Of the accumulated
/// error a tick retains the share handed in, and nothing where that is below zero or
/// no number.
pub proof fn law_controller_starts_with_its_settings(
    kp: Single,
    ki: Single,
    kd: Single,
    limit: Single,
    leak: Single,
    made: Pid,
    rest: Single,
    retained: Single,
)
    requires
        call_ensures(Pid::new, (kp, ki, kd, limit, leak), made),
        call_ensures(Pid::retained, (rest,), retained),
    ensures
        made.kp == kp && made.ki == ki && made.kd == kd,
        made.integral_limit == limit && made.leak == leak,
        made.integral.bits == 0 && made.d_filter.bits == 0,
        made.prev_error.bits % 0x8000_0000 > 0x7f80_0000,
        rest.bits <= 0x7f80_0000 ==> retained == rest,
        rest.bits > 0x7f80_0000 ==> retained.value() == 0,
{
    let zero = Single { bits: 0 };
    lemma_value_order(rest, zero);
    lemma_value_order(zero, rest);
    assert(zero.value() == 0);
    crate::single::lemma_magnitude_sign(rest);
}

} // verus!
