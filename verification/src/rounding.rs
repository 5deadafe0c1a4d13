//! What single-precision arithmetic promises of a sum, a product or a square root.
//!
//! The library computes none of them. These predicates say what the results
//! handed in by a caller are, so that laws can speak of them: the exact result
//! rounded to a nearest number, with the infinities next after the largest
//! numbers. Which of two equally near numbers is taken is left open.

use crate::single::{
    lemma_magnitude_increases, lemma_magnitude_sign, Single, EXPONENT_WEIGHT,
};
use vstd::arithmetic::power2::{
    lemma2_to64, lemma_pow2_adds, lemma_pow2_pos, lemma_pow2_strictly_increases, lemma_pow2_unfold,
    pow2,
};
use vstd::prelude::*;

verus! {

/// Bit pattern of one.
pub const ONE_BITS: u32 = 0x3f80_0000;

/// Bit pattern of the largest finite number.
pub const LARGEST_BITS: u32 = 0x7f7f_ffff;

/// Bit pattern of positive infinity.
pub const INFINITY_BITS: u32 = 0x7f80_0000;

/// The value of one, on the scale of [`Single::value`].
pub open spec fn one() -> int {
    (Single { bits: ONE_BITS }).value()
}

/// The largest finite value.
#[verifier::opaque]
pub open spec fn largest() -> int {
    (Single { bits: LARGEST_BITS }).value()
}

/// Where infinity stands on the scale.
#[verifier::opaque]
pub open spec fn infinity() -> int {
    (Single { bits: INFINITY_BITS }).value()
}

/// How far a number is from `exact`, which is in units of `1 / unit` of the scale.
pub open spec fn gap(q: Single, unit: int, exact: int) -> int {
    let d = q.value() * unit - exact;
    if d < 0 {
        -d
    } else {
        d
    }
}

/// Whether `r` is a number, and no number is nearer to `exact`.
pub open spec fn nearest(exact: int, unit: int, r: Single) -> bool {
    &&& !r.nan()
    &&& forall|q: Single| !q.nan() ==> gap(r, unit, exact) <= #[trigger] gap(q, unit, exact)
}

/// Whether `r` is the product of two finite numbers.
pub open spec fn rounded_product(a: Single, b: Single, r: Single) -> bool {
    a.finite() && b.finite() && nearest(a.value() * b.value(), one(), r)
}

/// Whether `r` is the sum of two numbers.
pub open spec fn rounded_sum(a: Single, b: Single, r: Single) -> bool {
    if a.nan() || b.nan() || (!a.finite() && !b.finite() && a.negative() != b.negative()) {
        r.nan()
    } else if !a.finite() {
        r == a
    } else if !b.finite() {
        r == b
    } else {
        nearest(a.value() + b.value(), 1, r)
    }
}

/// Sign and class of a square root: a NaN for a NaN and below zero, else a number
/// that is not below zero.
pub open spec fn root_like(a: Single, r: Single) -> bool {
    if a.nan() || a.value() < 0 {
        r.nan()
    } else {
        !r.nan() && r.value() >= 0
    }
}

/// Finite numbers lie between the largest one and its negative.
pub proof fn lemma_finite_is_bounded(a: Single)
    requires
        a.finite(),
    ensures
        -largest() <= a.value() <= largest(),
        !a.nan(),
{
    reveal(largest);
    let top = Single { bits: LARGEST_BITS };
    lemma_magnitude_sign(a);
    lemma_magnitude_sign(top);
    assert(a.unsigned_bits() <= top.unsigned_bits());
    if a.unsigned_bits() < top.unsigned_bits() {
        lemma_magnitude_increases(a, top);
    } else {
        assert(a.magnitude() == top.magnitude());
    }
}

/// A number between the largest finite one and its negative is finite.
pub proof fn lemma_bounded_is_finite(a: Single)
    requires
        !a.nan(),
        -largest() <= a.value() <= largest(),
    ensures
        a.finite(),
{
    reveal(largest);
    if !a.finite() {
        let inf = Single { bits: INFINITY_BITS };
        let top = Single { bits: LARGEST_BITS };
        assert(a.unsigned_bits() == inf.unsigned_bits());
        assert(a.magnitude() == inf.magnitude());
        lemma_magnitude_increases(top, inf);
    }
}

/// One is a tiny step at the upper end of the scale.
proof fn lemma_one_is_small()
    ensures
        0 < one(),
        2 * one() < infinity() - largest(),
        one() < largest(),
{
    reveal(largest);
    reveal(infinity);
    let w = EXPONENT_WEIGHT as int;
    let p = pow2(126) as int;
    let q = pow2(253) as int;
    assert((Single { bits: ONE_BITS }).exponent_field() == 127);
    assert((Single { bits: ONE_BITS }).fraction_field() == 0);
    assert(one() == w * p);
    assert((Single { bits: LARGEST_BITS }).exponent_field() == 254);
    assert((Single { bits: LARGEST_BITS }).fraction_field() == w - 1);
    assert(largest() == (w + (w - 1)) * q);
    assert((Single { bits: INFINITY_BITS }).exponent_field() == 255);
    assert((Single { bits: INFINITY_BITS }).fraction_field() == 0);
    lemma_pow2_unfold(254);
    assert(infinity() == w * (2 * q));
    lemma_pow2_pos(126);
    lemma_pow2_adds(126, 127);
    lemma2_to64();
    lemma_pow2_strictly_increases(24, 127);
    let t = pow2(127) as int;
    assert(q == p * t);
    assert(w * p > 0 && 2 * (w * p) < w * (2 * q) - (w + (w - 1)) * q && w * p < (w + (w - 1)) * q)
        by (nonlinear_arith)
        requires
            w == 0x80_0000,
            p >= 1,
            t > 0x100_0000,
            q == p * t,
    ;
}

/// What is nearest to an exact value within the finite range, or a little beyond
/// it, is finite.
proof fn lemma_nearest_is_finite(exact: int, unit: int, r: Single, beyond: int)
    requires
        nearest(exact, unit, r),
        unit > 0,
        0 <= beyond,
        2 * beyond < infinity() - largest(),
        -(largest() + beyond) * unit <= exact <= (largest() + beyond) * unit,
    ensures
        r.finite(),
{
    if !r.finite() {
        reveal(largest);
        reveal(infinity);
        let inf = Single { bits: INFINITY_BITS };
        let top = Single { bits: LARGEST_BITS };
        let bottom = Single { bits: 0xff7f_ffff };
        assert(r.unsigned_bits() == inf.unsigned_bits());
        assert(r.magnitude() == inf.magnitude());
        assert(bottom.unsigned_bits() == top.unsigned_bits());
        assert(bottom.value() == -largest());
        assert(!top.nan() && !bottom.nan());
        assert(gap(r, unit, exact) <= gap(top, unit, exact));
        assert(gap(r, unit, exact) <= gap(bottom, unit, exact));
        let i = infinity() * unit;
        let m = largest() * unit;
        let s = beyond * unit;
        assert(i - m > 2 * s && s >= 0) by (nonlinear_arith)
            requires
                unit > 0,
                beyond >= 0,
                2 * beyond < infinity() - largest(),
                i == infinity() * unit,
                m == largest() * unit,
                s == beyond * unit,
        ;
        assert((largest() + beyond) * unit == m + s) by (nonlinear_arith)
            requires
                m == largest() * unit,
                s == beyond * unit,
        ;
        assert(-(largest() + beyond) * unit == -(m + s)) by (nonlinear_arith)
            requires
                m == largest() * unit,
                s == beyond * unit,
        ;
        assert((-infinity()) * unit == -i && (-largest()) * unit == -m) by (nonlinear_arith)
            requires
                i == infinity() * unit,
                m == largest() * unit,
        ;
    }
}

/// A finite number times one that is no larger than one is finite.
pub proof fn lemma_product_is_finite(a: Single, b: Single, r: Single)
    requires
        rounded_product(a, b, r),
        -one() <= b.value() <= one(),
    ensures
        r.finite(),
{
    lemma_finite_is_bounded(a);
    lemma_one_is_small();
    let x = a.value();
    let y = b.value();
    assert(-largest() * one() <= x * y <= largest() * one()) by (nonlinear_arith)
        requires
            -largest() <= x <= largest(),
            -one() <= y <= one(),
            largest() > 0,
            one() > 0,
    ;
    lemma_nearest_is_finite(x * y, one(), r, 0);
}

/// One less a finite number is finite.
pub proof fn lemma_rest_is_finite(a: Single, r: Single)
    requires
        a.finite(),
        rounded_sum(Single { bits: ONE_BITS }, a.negated(), r),
    ensures
        r.finite(),
{
    assert(a.negated().unsigned_bits() == a.unsigned_bits());
    assert(a.negated().value() == -a.value());
    lemma_finite_is_bounded(a);
    lemma_one_is_small();
    assert((Single { bits: ONE_BITS }).finite());
    lemma_nearest_is_finite(one() - a.value(), 1, r, one());
}

/// A sum that is exactly not below zero is not below zero when rounded.
pub proof fn lemma_sum_keeps_sign(a: Single, b: Single, r: Single)
    requires
        rounded_sum(a, b, r),
        a.finite(),
        b.finite(),
        a.value() + b.value() >= 0,
    ensures
        !r.nan(),
        r.value() >= 0,
{
    let zero = Single { bits: 0 };
    lemma_finite_is_bounded(a);
    lemma_finite_is_bounded(b);
    assert(zero.value() == 0 && !zero.nan());
    assert(gap(r, 1, a.value() + b.value()) <= gap(zero, 1, a.value() + b.value()));
}

} // verus!
