//! Desaturation of the motor mix.
//!
//! Throttle and torques add up to one level per motor, which has to land in
//! [0, 1]. Rather than cutting off single motors, which would lose part of a
//! correction, the mix is scaled down when its spread does not fit, and then
//! the throttle moves until the highest and the lowest motor fit.

use crate::rounding::{
    lemma_bounded_is_finite, lemma_finite_is_bounded, lemma_sum_keeps_sign, rounded_sum,
};
use crate::single::Single;
use vstd::prelude::*;

verus! {

/// Bit pattern of one, the highest motor level.
pub const ONE_BITS: u32 = 0x3f80_0000;

/// Differential part of the motor levels.
#[derive(Clone, Copy, Debug)]
pub struct Mix {
    /// front left
    pub fl: Single,
    /// front right
    pub fr: Single,
    /// rear left
    pub rl: Single,
    /// rear right
    pub rr: Single,
}

/// The signed torques that make up a motor's differential part, to be added up
/// in the order roll, pitch, yaw.
#[derive(Clone, Copy, Debug)]
pub struct Terms {
    pub roll: Single,
    pub pitch: Single,
    pub yaw: Single,
}

impl Terms {
    /// The exact sum.
    pub open spec fn total(self) -> int {
        self.roll.value() + self.pitch.value() + self.yaw.value()
    }
}

/// Which way each torque acts on each motor, in the order front left, front
/// right, rear left, rear right: roll raises the left side, pitch the rear, and
/// yaw the motors on one diagonal.
pub open spec fn mix_terms_of(roll: Single, pitch: Single, yaw: Single) -> (
    Terms,
    Terms,
    Terms,
    Terms,
) {
    (
        Terms { roll, pitch: pitch.negated(), yaw },
        Terms { roll: roll.negated(), pitch: pitch.negated(), yaw: yaw.negated() },
        Terms { roll, pitch, yaw: yaw.negated() },
        Terms { roll: roll.negated(), pitch, yaw },
    )
}

/// Spreads the torques over the motors.
pub fn mix_terms(roll: Single, pitch: Single, yaw: Single) -> (r: (Terms, Terms, Terms, Terms))
    ensures
        r == mix_terms_of(roll, pitch, yaw),
{
    (
        Terms { roll, pitch: pitch.neg(), yaw },
        Terms { roll: roll.neg(), pitch: pitch.neg(), yaw: yaw.neg() },
        Terms { roll, pitch, yaw: yaw.neg() },
        Terms { roll: roll.neg(), pitch, yaw },
    )
}

/// Torques do not change the thrust: over the four motors every torque cancels
/// out. And each torque has its own effect: left against right gives back four
/// times the roll, rear against front four times the pitch, and one diagonal
/// against the other four times the yaw.
pub proof fn law_torques_cancel_out(roll: Single, pitch: Single, yaw: Single)
    ensures
        ({
            let (fl, fr, rl, rr) = mix_terms_of(roll, pitch, yaw);
            &&& fl.total() + fr.total() + rl.total() + rr.total() == 0
            &&& fl.total() + rl.total() - fr.total() - rr.total() == 4 * roll.value()
            &&& rl.total() + rr.total() - fl.total() - fr.total() == 4 * pitch.value()
            &&& fl.total() + rr.total() - fr.total() - rl.total() == 4 * yaw.value()
        }),
{
    assert(roll.negated().unsigned_bits() == roll.unsigned_bits());
    assert(pitch.negated().unsigned_bits() == pitch.unsigned_bits());
    assert(yaw.negated().unsigned_bits() == yaw.unsigned_bits());
    assert(roll.negated().value() == -roll.value());
    assert(pitch.negated().value() == -pitch.value());
    assert(yaw.negated().value() == -yaw.value());
}

impl Mix {
    /// The lowest of the four, ignoring a NaN.
    pub open spec fn lowest(self) -> Single {
        self.fl.lesser(self.fr).lesser(self.rl).lesser(self.rr)
    }

    /// The highest of the four, ignoring a NaN.
    pub open spec fn highest(self) -> Single {
        self.fl.greater(self.fr).greater(self.rl).greater(self.rr)
    }

    /// Lowest and highest of the four.
    pub fn extremes(&self) -> (r: (Single, Single))
        ensures
            r.0 == self.lowest(),
            r.1 == self.highest(),
    {
        (
            self.fl.min(self.fr).min(self.rl).min(self.rr),
            self.fl.max(self.fr).max(self.rl).max(self.rr),
        )
    }
}

/// Of four numbers the extremes bound each one and are among them.
pub proof fn law_extremes_bound_the_mix(mix: Mix)
    requires
        !mix.fl.nan(),
        !mix.fr.nan(),
        !mix.rl.nan(),
        !mix.rr.nan(),
    ensures
        mix.lowest().at_most(mix.fl) && mix.fl.at_most(mix.highest()),
        mix.lowest().at_most(mix.fr) && mix.fr.at_most(mix.highest()),
        mix.lowest().at_most(mix.rl) && mix.rl.at_most(mix.highest()),
        mix.lowest().at_most(mix.rr) && mix.rr.at_most(mix.highest()),
        mix.lowest() == mix.fl || mix.lowest() == mix.fr || mix.lowest() == mix.rl
            || mix.lowest() == mix.rr,
        mix.highest() == mix.fl || mix.highest() == mix.fr || mix.highest() == mix.rl
            || mix.highest() == mix.rr,
{
}

/// Whether levels that go up to `level`, or spread over `level`, exceed what
/// the motors have.
pub fn exceeds_full_range(level: Single) -> (r: bool)
    ensures
        r == (Single { bits: ONE_BITS }).below(level),
{
    (Single { bits: ONE_BITS }).lt(level)
}

/// The throttles that keep every motor in range: at least `low`, so that the
/// lowest motor does not fall below nothing, and at most `high`, so that the
/// highest one does not pass full level. `headroom` is what the highest motor
/// leaves below full level; where rounding has made it fall short of `low`, the
/// range shrinks to `low`.
pub open spec fn throttle_range(lowest: Single, headroom: Single) -> (Single, Single) {
    (lowest.negated(), headroom.greater(lowest.negated()))
}

/// There is always a throttle in range, whatever rounding did to the headroom.
pub proof fn law_throttle_range_is_never_empty(lowest: Single, headroom: Single)
    requires
        !lowest.nan(),
    ensures
        throttle_range(lowest, headroom).0.at_most(throttle_range(lowest, headroom).1),
{
    assert(lowest.negated().unsigned_bits() == lowest.unsigned_bits());
}

/// Moves the throttle to where every motor fits.
pub fn place_throttle(throttle: Single, lowest: Single, headroom: Single) -> (r: Single)
    requires
        !lowest.nan(),
    ensures
        r == throttle.clamped(
            throttle_range(lowest, headroom).0,
            throttle_range(lowest, headroom).1,
        ),
        !throttle.nan() && !headroom.nan() && -lowest.value() <= throttle.value()
            <= headroom.value() ==> r == throttle,
        !throttle.nan() && throttle.value() < -lowest.value() ==> r.value() == -lowest.value(),
        throttle.nan() ==> r == throttle,
{
    proof {
        law_throttle_range_is_never_empty(lowest, headroom);
        assert(lowest.negated().unsigned_bits() == lowest.unsigned_bits());
        assert(lowest.negated().value() == -lowest.value());
    }
    let low: Single = lowest.neg();
    let high: Single = headroom.max(low);
    throttle.clamp(low, high)
}

/// Every motor stays in range, whatever rounding did to the headroom: before the
/// sum is rounded, throttle and mix of any motor add up to no less than nothing
/// and to no more than the highest motor has at the top of the throttle range.
pub proof fn law_motors_stay_in_range(
    throttle: Single,
    mix: Mix,
    headroom: Single,
    motor: Single,
)
    requires
        !throttle.nan(),
        mix.fl.finite() && mix.fr.finite() && mix.rl.finite() && mix.rr.finite(),
        motor == mix.fl || motor == mix.fr || motor == mix.rl || motor == mix.rr,
    ensures
        ({
            let (low, high) = throttle_range(mix.lowest(), headroom);
            0 <= throttle.clamped(low, high).value() + motor.value() <= high.value()
                + mix.highest().value()
        }),
{
    law_extremes_bound_the_mix(mix);
    lemma_placed_throttle(throttle, mix.lowest(), mix.highest(), headroom, motor);
}

/// The same for any bounds of the mix.
proof fn lemma_placed_throttle(
    throttle: Single,
    lowest: Single,
    highest: Single,
    headroom: Single,
    motor: Single,
)
    requires
        !throttle.nan(),
        lowest.at_most(motor),
        motor.at_most(highest),
    ensures
        ({
            let (low, high) = throttle_range(lowest, headroom);
            &&& low.at_most(throttle.clamped(low, high))
            &&& throttle.clamped(low, high).at_most(high)
            &&& 0 <= throttle.clamped(low, high).value() + motor.value() <= high.value()
                + highest.value()
        }),
{
    assert(lowest.negated().unsigned_bits() == lowest.unsigned_bits());
    assert(lowest.negated().value() == -lowest.value());
    assert(lowest.negated().nan() == lowest.nan());
}

/// With a headroom that is exact, and a mix that spreads over no more than the
/// full range, no motor passes full level.
pub proof fn law_motors_never_pass_full_level(
    throttle: Single,
    mix: Mix,
    headroom: Single,
    motor: Single,
)
    requires
        !throttle.nan(),
        mix.fl.finite() && mix.fr.finite() && mix.rl.finite() && mix.rr.finite(),
        headroom.finite(),
        mix.highest().value() - mix.lowest().value() <= (Single { bits: ONE_BITS }).value(),
        headroom.value() == (Single { bits: ONE_BITS }).value() - mix.highest().value(),
        motor == mix.fl || motor == mix.fr || motor == mix.rl || motor == mix.rr,
    ensures
        ({
            let (low, high) = throttle_range(mix.lowest(), headroom);
            throttle.clamped(low, high).value() + motor.value() <= (Single {
                bits: ONE_BITS,
            }).value()
        }),
{
    law_motors_stay_in_range(throttle, mix, headroom, motor);
    lemma_top_of_range(mix.lowest(), mix.highest(), headroom, (Single { bits: ONE_BITS }).value());
}

/// At the top of the range the highest motor is at full level.
proof fn lemma_top_of_range(lowest: Single, highest: Single, headroom: Single, full: int)
    requires
        highest.value() - lowest.value() <= full,
        headroom.value() == full - highest.value(),
    ensures
        throttle_range(lowest, headroom).1.value() + highest.value() <= full,
{
    assert(lowest.negated().unsigned_bits() == lowest.unsigned_bits());
    assert(lowest.negated().value() == -lowest.value());
}

/// No motor is ever told less than nothing: also the rounded sum of throttle and
/// mix is a number that is not below zero.
pub proof fn law_rounded_motors_are_not_negative(
    throttle: Single,
    mix: Mix,
    headroom: Single,
    motor: Single,
    level: Single,
)
    requires
        !throttle.nan(),
        mix.fl.finite() && mix.fr.finite() && mix.rl.finite() && mix.rr.finite(),
        headroom.finite(),
        motor == mix.fl || motor == mix.fr || motor == mix.rl || motor == mix.rr,
        ({
            let (low, high) = throttle_range(mix.lowest(), headroom);
            rounded_sum(throttle.clamped(low, high), motor, level)
        }),
    ensures
        (Single { bits: 0 }).at_most(level),
{
    law_extremes_bound_the_mix(mix);
    lemma_rounded_level(throttle, mix.lowest(), mix.highest(), headroom, motor, level);
}

/// The same for any bounds of the mix.
proof fn lemma_rounded_level(
    throttle: Single,
    lowest: Single,
    highest: Single,
    headroom: Single,
    motor: Single,
    level: Single,
)
    requires
        !throttle.nan(),
        lowest.finite(),
        motor.finite(),
        headroom.finite(),
        lowest.at_most(motor),
        motor.at_most(highest),
        ({
            let (low, high) = throttle_range(lowest, headroom);
            rounded_sum(throttle.clamped(low, high), motor, level)
        }),
    ensures
        (Single { bits: 0 }).at_most(level),
{
    let (low, high) = throttle_range(lowest, headroom);
    let placed = throttle.clamped(low, high);
    lemma_placed_throttle(throttle, lowest, highest, headroom, motor);
    assert(low.unsigned_bits() == lowest.unsigned_bits());
    lemma_finite_is_bounded(low);
    lemma_finite_is_bounded(headroom);
    lemma_bounded_is_finite(placed);
    lemma_sum_keeps_sign(placed, motor, level);
    assert((Single { bits: 0 }).value() == 0 && !(Single { bits: 0 }).nan());
}

/// Where the throttle already keeps every motor in range, it stays as it is.
pub proof fn law_fitting_throttle_is_kept(throttle: Single, lowest: Single, headroom: Single)
    requires
        throttle_range(lowest, headroom).0.at_most(throttle),
        throttle.at_most(throttle_range(lowest, headroom).1),
    ensures
        throttle.clamped(
            throttle_range(lowest, headroom).0,
            throttle_range(lowest, headroom).1,
        ) == throttle,
{
}

/// The throttle moves only as far as it has to. Between what keeps the lowest
/// motor from falling below nothing and what the headroom allows it is flown as
/// commanded, full throttle without torques included; below it is raised to the
/// first bound, above lowered to the second, or to the first where the headroom
/// falls short of it. A headroom that is no number leaves the first bound alone,
/// and a throttle that is none is passed on.
pub proof fn law_throttle_moves_no_farther_than_needed(
    throttle: Single,
    lowest: Single,
    headroom: Single,
    r: Single,
)
    requires
        !lowest.nan(),
        call_ensures(place_throttle, (throttle, lowest, headroom), r),
    ensures
        throttle.nan() ==> r == throttle,
        !throttle.nan() && !headroom.nan() ==> {
            let low = -lowest.value();
            let high = if headroom.value() >= low {
                headroom.value()
            } else {
                low
            };
            &&& low <= throttle.value() <= high ==> r == throttle
            &&& throttle.value() < low ==> r.value() == low
            &&& throttle.value() > high ==> r.value() == high
            &&& low <= r.value() <= high
        },
        !throttle.nan() && headroom.nan() ==> r.value() == -lowest.value(),
        !throttle.nan() ==> !r.nan(),
{
    lemma_lower_bound(lowest);
}

/// The bound that the lowest motor sets, on the scale of the values.
proof fn lemma_lower_bound(lowest: Single)
    ensures
        lowest.negated().value() == -lowest.value(),
        lowest.negated().nan() == lowest.nan(),
{
    assert(lowest.negated().unsigned_bits() == lowest.unsigned_bits());
}

/// More throttle never gives less, and a throttle that has been placed stays
/// where it is.
pub proof fn law_placing_keeps_the_order(
    throttle: Single,
    more: Single,
    lowest: Single,
    headroom: Single,
    placed: Single,
    placed_more: Single,
    again: Single,
)
    requires
        !lowest.nan(),
        !throttle.nan(),
        !more.nan(),
        throttle.value() <= more.value(),
        call_ensures(place_throttle, (throttle, lowest, headroom), placed),
        call_ensures(place_throttle, (more, lowest, headroom), placed_more),
        call_ensures(place_throttle, (placed, lowest, headroom), again),
    ensures
        placed.value() <= placed_more.value(),
        again == placed,
{
    lemma_lower_bound(lowest);
}

/// Each torque acts on each motor in its own direction: roll raises the left side
/// and lowers the right one, pitch raises the rear and lowers the front, and yaw
/// raises the diagonal from the front left to the rear right and lowers the other.
/// To lower is to turn the sign bit.
pub proof fn law_torques_act_on_their_motors(
    roll: Single,
    pitch: Single,
    yaw: Single,
    r: (Terms, Terms, Terms, Terms),
)
    requires
        call_ensures(mix_terms, (roll, pitch, yaw), r),
    ensures
        r.0.roll == roll && r.2.roll == roll,
        r.1.roll.bits != roll.bits && r.1.roll.bits % 0x8000_0000 == roll.bits % 0x8000_0000,
        r.3.roll == r.1.roll,
        r.2.pitch == pitch && r.3.pitch == pitch,
        r.0.pitch.bits != pitch.bits && r.0.pitch.bits % 0x8000_0000 == pitch.bits % 0x8000_0000,
        r.1.pitch == r.0.pitch,
        r.0.yaw == yaw && r.3.yaw == yaw,
        r.1.yaw.bits != yaw.bits && r.1.yaw.bits % 0x8000_0000 == yaw.bits % 0x8000_0000,
        r.2.yaw == r.1.yaw,
{
}

/// The extremes of a mix: each is one of the motors, and no motor lies beyond
/// them. A motor whose level is no number counts for neither.
pub proof fn law_extremes_are_motors_of_the_mix(mix: Mix, r: (Single, Single), motor: Single)
    requires
        call_ensures(Mix::extremes, (&mix,), r),
        motor == mix.fl || motor == mix.fr || motor == mix.rl || motor == mix.rr,
        !motor.nan(),
    ensures
        !r.0.nan() && !r.1.nan(),
        r.0.value() <= motor.value() <= r.1.value(),
        r.0 == mix.fl || r.0 == mix.fr || r.0 == mix.rl || r.0 == mix.rr,
        r.1 == mix.fl || r.1 == mix.fr || r.1 == mix.rl || r.1 == mix.rr,
{
}

/// Only a level above one is too much, an infinite one included; one itself fits,
/// and so does what is no number.
pub proof fn law_more_than_one_exceeds_the_range(level: Single, r: bool)
    requires
        call_ensures(exceeds_full_range, (level,), r),
    ensures
        r == (0x3f80_0000 < level.bits <= 0x7f80_0000),
{
    crate::single::lemma_value_order(Single { bits: ONE_BITS }, level);
}

/// A mix without a single number has no extremes either.
pub proof fn law_no_extremes_without_numbers(mix: Mix, r: (Single, Single))
    requires
        call_ensures(Mix::extremes, (&mix,), r),
        mix.fl.nan() && mix.fr.nan() && mix.rl.nan() && mix.rr.nan(),
    ensures
        r.0.nan() && r.1.nan(),
{
}

} // verus!
