//! Single-precision numbers carried as their IEEE-754 bit patterns.
//!
//! Ordering, classification and sign changes need no arithmetic, so they are
//! decided here on the pattern itself.

use vstd::arithmetic::power2::{lemma_pow2_pos, lemma_pow2_strictly_increases, lemma_pow2_unfold, pow2};
use vstd::prelude::*;

verus! {

/// Weight of the sign bit.
pub const SIGN_WEIGHT: u32 = 0x8000_0000;

/// Weight of the lowest exponent bit.
pub const EXPONENT_WEIGHT: u32 = 0x0080_0000;

/// Exponent field shared by infinities and NaNs.
pub const EXPONENT_SPECIAL: u32 = 0xff;

/// A single-precision number, as its bit pattern.
#[derive(Clone, Copy, Debug)]
pub struct Single {
    pub bits: u32,
}

impl Single {
    /// Whether the sign bit is set.
    pub open spec fn negative(self) -> bool {
        self.bits >= SIGN_WEIGHT
    }

    /// The pattern without its sign bit.
    pub open spec fn unsigned_bits(self) -> int {
        self.bits as int % SIGN_WEIGHT as int
    }

    /// The exponent field.
    pub open spec fn exponent_field(self) -> int {
        self.unsigned_bits() / EXPONENT_WEIGHT as int
    }

    /// The fraction field.
    pub open spec fn fraction_field(self) -> int {
        self.unsigned_bits() % EXPONENT_WEIGHT as int
    }

    pub open spec fn nan(self) -> bool {
        self.exponent_field() == EXPONENT_SPECIAL && self.fraction_field() != 0
    }

    pub open spec fn finite(self) -> bool {
        self.exponent_field() != EXPONENT_SPECIAL
    }

    /// The absolute value in units of the smallest subnormal, 2^-149.
    pub open spec fn magnitude(self) -> int {
        if self.exponent_field() == 0 {
            self.fraction_field()
        } else {
            (EXPONENT_WEIGHT + self.fraction_field()) * pow2((self.exponent_field() - 1) as nat)
        }
    }

    /// The number itself in units of 2^-149. An infinity lies beyond every
    /// finite number on this scale; of a NaN the value means nothing.
    pub open spec fn value(self) -> int {
        if self.negative() {
            -self.magnitude()
        } else {
            self.magnitude()
        }
    }

    /// Numeric `<`: false as soon as a NaN takes part.
    pub open spec fn below(self, other: Single) -> bool {
        !self.nan() && !other.nan() && self.value() < other.value()
    }

    /// Numeric `<=`: false as soon as a NaN takes part.
    pub open spec fn at_most(self, other: Single) -> bool {
        !self.nan() && !other.nan() && self.value() <= other.value()
    }

    /// Numeric `==`: both zeros are equal, a NaN equals nothing.
    pub open spec fn equals(self, other: Single) -> bool {
        !self.nan() && !other.nan() && self.value() == other.value()
    }

    /// Position in the IEEE-754 total order, in which every pattern has a
    /// place of its own: the negative ones from the largest pattern up to
    /// minus zero, then the positive ones from plus zero.
    pub open spec fn total_rank(self) -> int {
        if self.negative() {
            -self.unsigned_bits() - 1
        } else {
            self.unsigned_bits()
        }
    }

    /// The same number with the other sign.
    pub open spec fn negated(self) -> Single {
        if self.negative() {
            Single { bits: (self.bits - SIGN_WEIGHT) as u32 }
        } else {
            Single { bits: (self.bits + SIGN_WEIGHT) as u32 }
        }
    }

    /// The number without its sign.
    pub open spec fn absolute(self) -> Single {
        Single { bits: self.unsigned_bits() as u32 }
    }

    /// The smaller of two numbers; of a number and a NaN the number.
    pub open spec fn lesser(self, other: Single) -> Single {
        if self.nan() || other.below(self) {
            other
        } else {
            self
        }
    }

    /// The larger of two numbers; of a number and a NaN the number.
    pub open spec fn greater(self, other: Single) -> Single {
        if self.nan() || self.below(other) {
            other
        } else {
            self
        }
    }

    /// `self` moved into `[low, high]`; a NaN stays a NaN.
    pub open spec fn clamped(self, low: Single, high: Single) -> Single {
        if self.below(low) {
            low
        } else if high.below(self) {
            high
        } else {
            self
        }
    }
}

/// Magnitudes grow strictly with the pattern.
pub proof fn lemma_magnitude_increases(a: Single, b: Single)
    requires
        a.unsigned_bits() < b.unsigned_bits(),
    ensures
        a.magnitude() < b.magnitude(),
{
    let ea = a.exponent_field();
    let eb = b.exponent_field();
    let fa = a.fraction_field();
    let fb = b.fraction_field();
    let w = EXPONENT_WEIGHT as int;
    if eb > 0 {
        let pb = pow2((eb - 1) as nat) as int;
        lemma_pow2_pos((eb - 1) as nat);
        assert((w + fb) * pb >= w * pb && w * pb >= w) by (nonlinear_arith)
            requires
                pb >= 1,
                fb >= 0,
                w >= 0,
        ;
        if ea > 0 {
            let pa = pow2((ea - 1) as nat) as int;
            lemma_pow2_pos((ea - 1) as nat);
            if ea == eb {
                assert((w + fa) * pa < (w + fb) * pa) by (nonlinear_arith)
                    requires
                        pa >= 1,
                        fa < fb,
                ;
            } else {
                lemma_pow2_unfold(ea as nat);
                if ea < eb - 1 {
                    lemma_pow2_strictly_increases(ea as nat, (eb - 1) as nat);
                }
                assert((w + fa) * pa < w * pb) by (nonlinear_arith)
                    requires
                        pa >= 1,
                        0 <= fa < w,
                        2 * pa <= pb,
                ;
            }
        }
    }
}

/// Magnitudes are never negative, and zero only for the two zeros.
pub proof fn lemma_magnitude_sign(a: Single)
    ensures
        a.magnitude() >= 0,
        a.magnitude() == 0 <==> a.unsigned_bits() == 0,
{
    let zero = Single { bits: 0 };
    assert(zero.magnitude() == 0);
    if a.unsigned_bits() > 0 {
        lemma_magnitude_increases(zero, a);
    } else {
        assert(a.magnitude() == 0);
    }
}

/// The numeric order read off the patterns.
pub proof fn lemma_value_order(a: Single, b: Single)
    ensures
        a.value() < b.value() <==> if a.negative() {
            if b.negative() {
                b.unsigned_bits() < a.unsigned_bits()
            } else {
                a.unsigned_bits() != 0 || b.unsigned_bits() != 0
            }
        } else {
            !b.negative() && a.unsigned_bits() < b.unsigned_bits()
        },
{
    lemma_magnitude_sign(a);
    lemma_magnitude_sign(b);
    if a.unsigned_bits() < b.unsigned_bits() {
        lemma_magnitude_increases(a, b);
    } else if b.unsigned_bits() < a.unsigned_bits() {
        lemma_magnitude_increases(b, a);
    } else {
        assert(a.magnitude() == b.magnitude());
    }
}

impl Single {
    fn is_negative(self) -> (r: bool)
        ensures
            r == self.negative(),
    {
        self.bits >= SIGN_WEIGHT
    }

    fn without_sign(self) -> (r: u32)
        ensures
            r == self.unsigned_bits(),
    {
        self.bits % SIGN_WEIGHT
    }

    pub fn is_nan(self) -> (r: bool)
        ensures
            r == self.nan(),
    {
        let m: u32 = self.without_sign();
        m / EXPONENT_WEIGHT == EXPONENT_SPECIAL && m % EXPONENT_WEIGHT != 0
    }

    pub fn is_finite(self) -> (r: bool)
        ensures
            r == self.finite(),
    {
        self.without_sign() / EXPONENT_WEIGHT != EXPONENT_SPECIAL
    }

    /// Numeric `<`.
    pub fn lt(self, other: Single) -> (r: bool)
        ensures
            r == self.below(other),
    {
        proof {
            lemma_value_order(self, other);
        }
        if self.is_nan() || other.is_nan() {
            return false;
        }
        let a: u32 = self.without_sign();
        let b: u32 = other.without_sign();
        if self.is_negative() {
            if other.is_negative() {
                b < a
            } else {
                a != 0 || b != 0
            }
        } else {
            !other.is_negative() && a < b
        }
    }

    /// Numeric `<=`.
    pub fn le(self, other: Single) -> (r: bool)
        ensures
            r == self.at_most(other),
    {
        !self.is_nan() && !other.is_nan() && !other.lt(self)
    }

    /// The smaller of the two, ignoring a NaN.
    pub fn min(self, other: Single) -> (r: Single)
        ensures
            r == self.lesser(other),
    {
        if self.is_nan() || other.lt(self) {
            other
        } else {
            self
        }
    }

    /// The larger of the two, ignoring a NaN.
    pub fn max(self, other: Single) -> (r: Single)
        ensures
            r == self.greater(other),
    {
        if self.is_nan() || self.lt(other) {
            other
        } else {
            self
        }
    }

    /// Moves the number into `[low, high]`.
    pub fn clamp(self, low: Single, high: Single) -> (r: Single)
        requires
            low.at_most(high),
        ensures
            r == self.clamped(low, high),
            !self.nan() ==> low.at_most(r) && r.at_most(high),
    {
        if self.lt(low) {
            low
        } else if high.lt(self) {
            high
        } else {
            self
        }
    }

    /// Flips the sign.
    pub fn neg(self) -> (r: Single)
        ensures
            r == self.negated(),
            r.value() == -self.value(),
            r.nan() == self.nan(),
    {
        let r: Single = if self.is_negative() {
            Single { bits: self.bits - SIGN_WEIGHT }
        } else {
            Single { bits: self.bits + SIGN_WEIGHT }
        };
        assert(r.unsigned_bits() == self.unsigned_bits());
        r
    }

    /// Drops the sign.
    pub fn abs(self) -> (r: Single)
        ensures
            r == self.absolute(),
            r.value() == self.magnitude(),
            r.nan() == self.nan(),
    {
        let r: Single = Single { bits: self.without_sign() };
        assert(r.unsigned_bits() == self.unsigned_bits());
        r
    }

    /// Whether the pattern comes before `other` in the total order.
    pub fn total_lt(self, other: Single) -> (r: bool)
        ensures
            r == (self.total_rank() < other.total_rank()),
    {
        let a: u32 = self.without_sign();
        let b: u32 = other.without_sign();
        if self.is_negative() {
            !other.is_negative() || b < a
        } else {
            !other.is_negative() && a < b
        }
    }
}

impl PartialEq for Single {
    fn eq(&self, other: &Single) -> (r: bool) {
        proof {
            lemma_value_order(*self, *other);
            lemma_value_order(*other, *self);
        }
        !self.is_nan() && !other.is_nan() && !self.lt(*other) && !other.lt(*self)
    }
}

impl vstd::std_specs::cmp::PartialEqSpecImpl for Single {
    open spec fn obeys_eq_spec() -> bool {
        true
    }

    open spec fn eq_spec(&self, other: &Single) -> bool {
        self.equals(*other)
    }
}

/// The total order extends the numeric one: of two numbers the smaller one
/// comes first.
pub proof fn law_total_order_extends_numeric(a: Single, b: Single)
    requires
        a.below(b),
    ensures
        a.total_rank() < b.total_rank(),
{
    lemma_value_order(a, b);
}

/// The total order tells any two patterns apart.
pub proof fn law_total_rank_is_injective(a: Single, b: Single)
    requires
        a.total_rank() == b.total_rank(),
    ensures
        a == b,
{
}

/// What a pattern stands for: below the sign bit, everything past the pattern of
/// infinity is a NaN and everything before it is finite.
pub proof fn law_patterns_past_infinity_are_nans(x: Single, nan: bool, finite: bool)
    requires
        call_ensures(Single::is_nan, (x,), nan),
        call_ensures(Single::is_finite, (x,), finite),
    ensures
        nan == (x.bits % 0x8000_0000 > 0x7f80_0000),
        finite == (x.bits % 0x8000_0000 < 0x7f80_0000),
{
}

/// The scale of the values: the smallest patterns count up one by one, from there
/// on raising the exponent by one doubles the value, and the sign bit turns it
/// round.
pub proof fn law_exponent_doubles_value(x: Single, raised: Single, turned: Single)
    requires
        raised.bits == x.bits + 0x0080_0000,
        turned.bits == x.bits + 0x8000_0000,
    ensures
        x.bits < 0x0100_0000 ==> x.value() == x.bits,
        0x0080_0000 <= x.bits < 0x7f80_0000 ==> raised.value() == 2 * x.value(),
        turned.value() == -x.value(),
{
    let e = x.exponent_field();
    let f = x.fraction_field();
    assert(turned.unsigned_bits() == x.unsigned_bits());
    if 0x0080_0000 <= x.bits < 0x0100_0000 {
        assert(e == 1 && f == x.bits - 0x0080_0000);
        vstd::arithmetic::power2::lemma2_to64();
    }
    if 0x0080_0000 <= x.bits < 0x7f80_0000 {
        let p = pow2((e - 1) as nat) as int;
        assert(raised.fraction_field() == f && raised.exponent_field() == e + 1);
        lemma_pow2_unfold(e as nat);
        assert((0x0080_0000 + f) * (2 * p) == 2 * ((0x0080_0000 + f) * p)) by (nonlinear_arith);
    }
}

/// Comparing numbers is comparing patterns counted outward from zero, to either
/// side: plus and minus zero are one place, and a NaN has none.
pub proof fn law_numbers_compare_by_pattern(
    a: Single,
    b: Single,
    less: bool,
    at_most: bool,
    equal: bool,
)
    requires
        call_ensures(Single::lt, (a, b), less),
        call_ensures(Single::le, (a, b), at_most),
        call_ensures(Single::eq, (&a, &b), equal),
    ensures
        ({
            let numbers = a.bits % 0x8000_0000 <= 0x7f80_0000 && b.bits % 0x8000_0000
                <= 0x7f80_0000;
            let i = if a.bits < 0x8000_0000 {
                a.bits as int
            } else {
                0x8000_0000 - a.bits
            };
            let j = if b.bits < 0x8000_0000 {
                b.bits as int
            } else {
                0x8000_0000 - b.bits
            };
            &&& less == (numbers && i < j)
            &&& at_most == (numbers && i <= j)
            &&& equal == (numbers && i == j)
        }),
{
    lemma_value_order(a, b);
    lemma_value_order(b, a);
}

/// The smaller and the larger of two numbers are these two, in order; a NaN gives
/// way to the other operand.
pub proof fn law_extremes_are_the_operands(a: Single, b: Single, low: Single, high: Single)
    requires
        call_ensures(Single::min, (a, b), low),
        call_ensures(Single::max, (a, b), high),
    ensures
        a.nan() ==> low == b && high == b,
        b.nan() && !a.nan() ==> low == a && high == a,
        !a.nan() && !b.nan() ==> {
            &&& low == a || low == b
            &&& high == a || high == b
            &&& low.value() <= a.value() <= high.value()
            &&& low.value() <= b.value() <= high.value()
        },
{
}

/// What lies within the bounds stays, what lies below comes to the lower one and
/// what lies above to the upper one; a NaN stays.
pub proof fn law_clamp_moves_to_the_nearest_bound(
    x: Single,
    low: Single,
    high: Single,
    r: Single,
)
    requires
        !low.nan(),
        !high.nan(),
        low.value() <= high.value(),
        call_ensures(Single::clamp, (x, low, high), r),
    ensures
        x.nan() ==> r == x,
        !x.nan() && low.value() <= x.value() <= high.value() ==> r == x,
        !x.nan() && x.value() < low.value() ==> r == low,
        !x.nan() && high.value() < x.value() ==> r == high,
{
}

/// Changing the sign touches the sign bit alone: negation turns it, and the
/// absolute value clears it.
pub proof fn law_signs_are_one_bit(x: Single, negated: Single, absolute: Single)
    requires
        call_ensures(Single::neg, (x,), negated),
        call_ensures(Single::abs, (x,), absolute),
    ensures
        negated.bits != x.bits,
        negated.bits % 0x8000_0000 == x.bits % 0x8000_0000,
        absolute.bits == x.bits % 0x8000_0000,
{
}

/// The total order runs through the negative patterns downward and then through
/// the others upward, NaNs included.
pub proof fn law_total_order_by_pattern(a: Single, b: Single, first: bool)
    requires
        call_ensures(Single::total_lt, (a, b), first),
    ensures
        a.bits < 0x8000_0000 && b.bits < 0x8000_0000 ==> first == (a.bits < b.bits),
        a.bits >= 0x8000_0000 && b.bits >= 0x8000_0000 ==> first == (b.bits < a.bits),
        a.bits >= 0x8000_0000 && b.bits < 0x8000_0000 ==> first,
        a.bits < 0x8000_0000 && b.bits >= 0x8000_0000 ==> !first,
{
}

/// A vector of three single-precision components.
#[derive(Clone, Copy, Debug)]
pub struct Vector {
    pub x: Single,
    pub y: Single,
    pub z: Single,
}

impl Vector {
    /// Component-wise numeric equality.
    pub open spec fn equals(self, other: Vector) -> bool {
        self.x.equals(other.x) && self.y.equals(other.y) && self.z.equals(other.z)
    }

    /// The zero vector.
    pub open spec fn zero() -> Vector {
        Vector { x: Single { bits: 0 }, y: Single { bits: 0 }, z: Single { bits: 0 } }
    }

    /// The zero vector.
    pub fn zeros() -> (r: Vector)
        ensures
            r == Vector::zero(),
    {
        Vector { x: Single { bits: 0 }, y: Single { bits: 0 }, z: Single { bits: 0 } }
    }

    pub fn new(x: Single, y: Single, z: Single) -> (r: Vector)
        ensures
            r == (Vector { x, y, z }),
    {
        Vector { x, y, z }
    }
}

impl PartialEq for Vector {
    fn eq(&self, other: &Vector) -> (r: bool) {
        self.x == other.x && self.y == other.y && self.z == other.z
    }
}

impl vstd::std_specs::cmp::PartialEqSpecImpl for Vector {
    open spec fn obeys_eq_spec() -> bool {
        true
    }

    open spec fn eq_spec(&self, other: &Vector) -> bool {
        self.equals(*other)
    }
}

/// Vectors are built from their components and compare component by component.
pub proof fn law_vectors_are_their_components(
    x: Single,
    y: Single,
    z: Single,
    v: Vector,
    zeros: Vector,
    other: Vector,
    equal: bool,
)
    requires
        call_ensures(Vector::new, (x, y, z), v),
        call_ensures(Vector::zeros, (), zeros),
        call_ensures(Vector::eq, (&v, &other), equal),
    ensures
        v.x == x && v.y == y && v.z == z,
        zeros.x.bits == 0 && zeros.y.bits == 0 && zeros.z.bits == 0,
        equal == (x.equals(other.x) && y.equals(other.y) && z.equals(other.z)),
{
}

} // verus!
