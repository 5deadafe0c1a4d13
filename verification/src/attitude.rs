//! Decisions on the way from a sensor reading to an attitude error.

use crate::single::{Single, Vector};
use vstd::prelude::*;

verus! {

/// Where an error lies in relation to a deadband.
#[derive(Clone, Copy, Debug, PartialEq, Eq, Structural)]
pub enum DeadbandSide {
    /// beyond the upper edge, which is to be subtracted
    Above,
    /// beyond the lower edge, which is to be added
    Below,
    /// within the band, or not a number: counts as no error
    Inside,
}

/// Places an error in relation to the deadband `[-band, band]`.
pub fn deadband(x: Single, band: Single) -> (r: DeadbandSide)
    ensures
        r == if band.below(x) {
            DeadbandSide::Above
        } else if x.below(band.negated()) {
            DeadbandSide::Below
        } else {
            DeadbandSide::Inside
        },
{
    if band.lt(x) {
        DeadbandSide::Above
    } else if x.lt(band.neg()) {
        DeadbandSide::Below
    } else {
        DeadbandSide::Inside
    }
}

/// A deadband treats both directions alike: turning the error round turns the
/// side round.
pub proof fn law_deadband_is_symmetric(x: Single, band: Single)
    requires
        !band.negative(),
    ensures
        band.below(x) <==> x.negated().below(band.negated()),
        !(band.below(x) && x.below(band.negated())),
{
    lemma_negated(x);
    lemma_negated(band);
    crate::single::lemma_magnitude_sign(band);
}

/// Negation keeps the magnitude and turns the sign.
proof fn lemma_negated(x: Single)
    ensures
        x.negated().value() == -x.value(),
        x.negated().nan() == x.nan(),
{
    assert(x.negated().unsigned_bits() == x.unsigned_bits());
}

/// Whether the remainder of an angle by a full turn needs another full turn
/// to lie in `[0, 2π)`: a remainder takes the sign of the angle.
pub fn wrap_angle_adds_turn(remainder: Single) -> (r: bool)
    ensures
        r == remainder.below(Single { bits: 0 }),
{
    remainder.lt(Single { bits: 0 })
}

/// The acceleration to hand to the fusion filter. A reading whose norm is out
/// of `[min, max]` is not close to pure gravity and is replaced by the zero
/// vector, on which the filter integrates the gyro alone.
pub fn healthy_accel(accel: Vector, norm: Single, min: Single, max: Single) -> (r: Vector)
    ensures
        r == if min.at_most(norm) && norm.at_most(max) {
            accel
        } else {
            Vector::zero()
        },
{
    if min.le(norm) && norm.le(max) {
        accel
    } else {
        Vector::zeros()
    }
}

/// A sensor sample with its acceleration and angular rate, once both are there.
/// One that lacks either is to be read again.
pub fn complete_sample(accel: Option<Vector>, gyro: Option<Vector>) -> (r: Option<
    (Vector, Vector),
>)
    ensures
        r == if accel is Some && gyro is Some {
            Some((accel->0, gyro->0))
        } else {
            None
        },
{
    match (accel, gyro) {
        (Some(accel), Some(gyro)) => Some((accel, gyro)),
        _ => None,
    }
}

/// An error counts above if it lies beyond the band, else below if it lies beyond
/// the band turned round, and on neither side within the band; what is no number,
/// error or band, counts on neither.
pub proof fn law_errors_beyond_the_band_count(x: Single, band: Single, r: DeadbandSide)
    requires
        call_ensures(deadband, (x, band), r),
    ensures
        x.nan() || band.nan() ==> r == DeadbandSide::Inside,
        !x.nan() && !band.nan() ==> {
            &&& r == DeadbandSide::Above <==> x.value() > band.value()
            &&& r == DeadbandSide::Below <==> x.value() <= band.value() && x.value()
                < -band.value()
        },
{
    lemma_negated(band);
}

/// An error turned round counts on the other side.
pub proof fn law_turned_errors_count_on_the_other_side(
    x: Single,
    turned: Single,
    band: Single,
    r: DeadbandSide,
    s: DeadbandSide,
)
    requires
        band.bits < 0x8000_0000,
        call_ensures(deadband, (x, band), r),
        turned.bits % 0x8000_0000 == x.bits % 0x8000_0000,
        turned.bits != x.bits,
        call_ensures(deadband, (turned, band), s),
    ensures
        r == DeadbandSide::Above <==> s == DeadbandSide::Below,
        r == DeadbandSide::Below <==> s == DeadbandSide::Above,
{
    lemma_negated(x);
    lemma_negated(band);
    crate::single::lemma_magnitude_sign(band);
    assert(turned == x.negated());
}

/// A remainder needs another turn exactly if it is below zero; minus zero is not.
pub proof fn law_negative_remainders_need_a_turn(remainder: Single, r: bool)
    requires
        call_ensures(wrap_angle_adds_turn, (remainder,), r),
    ensures
        r == (0x8000_0000 < remainder.bits <= 0xff80_0000),
{
    crate::single::lemma_value_order(remainder, Single { bits: 0 });
}

/// A reading close to gravity is passed on whole, any other is replaced by zeros:
/// one outside the bounds, and one whose norm or bounds are no numbers.
pub proof fn law_readings_far_from_gravity_are_dropped(
    accel: Vector,
    norm: Single,
    min: Single,
    max: Single,
    r: Vector,
)
    requires
        call_ensures(healthy_accel, (accel, norm, min, max), r),
    ensures
        ({
            let close = !norm.nan() && !min.nan() && !max.nan() && min.value() <= norm.value()
                <= max.value();
            &&& close ==> r == accel
            &&& !close ==> r.x.bits == 0 && r.y.bits == 0 && r.z.bits == 0
        }),
{
}

/// A sample is complete with both of its parts, which keep their places.
pub proof fn law_sample_needs_both_parts(
    accel: Option<Vector>,
    gyro: Option<Vector>,
    r: Option<(Vector, Vector)>,
)
    requires
        call_ensures(complete_sample, (accel, gyro), r),
    ensures
        r is Some <==> accel is Some && gyro is Some,
        r matches Some(sample) ==> accel == Some(sample.0) && gyro == Some(sample.1),
{
}

} // verus!
