//! Build-time settings.

use vstd::prelude::*;
use vstd::string::StringSliceAdditionalSpecFns;

verus! {

/// Value of the character `0`.
pub const ZERO_DIGIT: u8 = 48;

/// Control-loop period in milliseconds.
pub const LOOP_PERIOD_MS: u64 = 1;

/// Log interval in milliseconds when none is set.
pub const DEFAULT_LOG_MS: u64 = 500;

/// Throttle limit in percent when none is set.
pub const DEFAULT_THROTTLE_CAP: u8 = 100;

/// Resolution of the motor PWM in bits.
pub const PWM_BITS: u32 = 10;

/// Highest duty at that resolution.
pub const PWM_MAX_DUTY: u32 = 1023;

/// The number that a string of digits stands for in base ten.
pub open spec fn decimal(digits: Seq<u8>) -> int
    decreases digits.len(),
{
    if digits.len() == 0 {
        0
    } else {
        decimal(digits.drop_last()) * 10 + (digits.last() - ZERO_DIGIT)
    }
}

/// Dropping digits from the end never makes the number larger.
proof fn lemma_decimal_prefix(digits: Seq<u8>, n: int)
    requires
        0 <= n <= digits.len(),
        forall|i: int| 0 <= i < digits.len() ==> digits[i] >= ZERO_DIGIT,
    ensures
        0 <= decimal(digits.take(n)) <= decimal(digits),
    decreases digits.len(),
{
    if n == digits.len() {
        assert(digits.take(n) =~= digits);
        if digits.len() > 0 {
            lemma_decimal_prefix(digits.drop_last(), digits.len() - 1);
            assert(digits.drop_last().take(digits.len() - 1) =~= digits.drop_last());
        }
    } else {
        lemma_decimal_prefix(digits.drop_last(), n);
        assert(digits.drop_last().take(n) =~= digits.take(n));
    }
}

/// Whether a string can be read as a number: no character comes before `0`,
/// and the number fits.
pub open spec fn readable(digits: Seq<u8>) -> bool {
    &&& forall|i: int| 0 <= i < digits.len() ==> digits[i] >= ZERO_DIGIT
    &&& decimal(digits) <= u64::MAX
}

/// Whether [`parse_u64`] can read a string.
pub fn can_parse_u64(s: &str) -> (r: bool)
    ensures
        r == readable(s.spec_bytes()),
{
    let b: &[u8] = s.as_bytes();
    let mut i: usize = 0;
    while i < b.len()
        invariant
            i <= b@.len(),
            b@ == s.spec_bytes(),
            forall|k: int| 0 <= k < i ==> b@[k] >= ZERO_DIGIT,
        decreases b@.len() - i,
    {
        if b[i] < ZERO_DIGIT {
            return false;
        }
        i += 1;
    }
    let mut n: u64 = 0;
    let mut j: usize = 0;
    while j < b.len()
        invariant
            j <= b@.len(),
            b@ == s.spec_bytes(),
            forall|k: int| 0 <= k < b@.len() ==> b@[k] >= ZERO_DIGIT,
            n == decimal(b@.take(j as int)),
        decreases b@.len() - j,
    {
        let digit: u64 = (b[j] - ZERO_DIGIT) as u64;
        proof {
            lemma_decimal_prefix(b@, j + 1);
            assert(b@.take(j + 1).drop_last() =~= b@.take(j as int));
        }
        if n > (u64::MAX - digit) / 10 {
            return false;
        }
        n = n * 10 + digit;
        j += 1;
    }
    assert(b@.take(j as int) =~= b@);
    true
}

/// Reads a decimal number.
pub fn parse_u64(s: &str) -> (r: u64)
    requires
        readable(s.spec_bytes()),
    ensures
        r == decimal(s.spec_bytes()),
{
    let b: &[u8] = s.as_bytes();
    let mut n: u64 = 0;
    let mut i: usize = 0;
    while i < b.len()
        invariant
            i <= b@.len(),
            b@ == s.spec_bytes(),
            forall|k: int| 0 <= k < b@.len() ==> b@[k] >= ZERO_DIGIT,
            decimal(b@) <= u64::MAX,
            n == decimal(b@.take(i as int)),
        decreases b@.len() - i,
    {
        proof {
            lemma_decimal_prefix(b@, i + 1);
            assert(b@.take(i + 1).drop_last() =~= b@.take(i as int));
        }
        n = n * 10 + (b[i] - ZERO_DIGIT) as u64;
        i += 1;
    }
    assert(b@.take(i as int) =~= b@);
    n
}

/// How many loop iterations lie between two log lines, given the configured
/// interval in milliseconds.
pub fn log_every_n(setting: Option<u64>) -> (r: u32)
    ensures
        r == (match setting {
            Some(ms) => ms,
            None => DEFAULT_LOG_MS,
        }) / LOOP_PERIOD_MS % 0x1_0000_0000,
{
    let ms: u64 = match setting {
        Some(ms) => ms,
        None => DEFAULT_LOG_MS,
    };
    (ms / LOOP_PERIOD_MS % 0x1_0000_0000) as u32
}

/// The throttle limit in percent.
pub fn throttle_cap(setting: Option<u64>) -> (r: u8)
    requires
        setting matches Some(percent) ==> percent <= 100,
    ensures
        r == (match setting {
            Some(percent) => percent,
            None => DEFAULT_THROTTLE_CAP as u64,
        }),
        r <= 100,
{
    match setting {
        Some(percent) => percent as u8,
        None => DEFAULT_THROTTLE_CAP,
    }
}

/// A throttle under a limit: `steps` of throttle become `steps * cap` hundredths
/// of a step, so that the stick's whole travel maps onto the part below the limit.
pub fn capped_throttle(steps: u16, cap: u8) -> (r: u32)
    requires
        cap <= 100,
    ensures
        r == steps * cap,
{
    assert(steps * cap <= 65535 * 100) by (nonlinear_arith)
        requires
            steps <= 65535,
            cap <= 100,
    ;
    steps as u32 * cap as u32
}

/// The limit scales the throttle: it never passes `cap` percent of full travel,
/// more stick never gives less, and without a limit the throttle is unchanged.
pub proof fn law_cap_scales_throttle(steps: int, more: int, full: int, cap: int)
    requires
        0 <= steps <= more <= full,
        0 <= cap <= 100,
    ensures
        0 <= steps * cap <= full * cap,
        steps * cap <= more * cap,
        steps * cap <= steps * 100,
        cap == 100 ==> steps * cap == steps * 100,
{
    assert(0 <= steps * cap && steps * cap <= more * cap && more * cap <= full * cap && steps * cap
        <= steps * 100) by (nonlinear_arith)
        requires
            0 <= steps <= more <= full,
            0 <= cap <= 100,
    ;
}

/// PWM duty resolutions of the timer hardware.
#[derive(Clone, Copy, Debug, PartialEq, Eq, Structural)]
pub enum Duty {
    Duty1Bit,
    Duty2Bit,
    Duty3Bit,
    Duty4Bit,
    Duty5Bit,
    Duty6Bit,
    Duty7Bit,
    Duty8Bit,
    Duty9Bit,
    Duty10Bit,
    Duty11Bit,
    Duty12Bit,
    Duty13Bit,
    Duty14Bit,
}

impl Duty {
    /// Number of bits of a resolution.
    pub open spec fn bits(self) -> int {
        match self {
            Duty::Duty1Bit => 1,
            Duty::Duty2Bit => 2,
            Duty::Duty3Bit => 3,
            Duty::Duty4Bit => 4,
            Duty::Duty5Bit => 5,
            Duty::Duty6Bit => 6,
            Duty::Duty7Bit => 7,
            Duty::Duty8Bit => 8,
            Duty::Duty9Bit => 9,
            Duty::Duty10Bit => 10,
            Duty::Duty11Bit => 11,
            Duty::Duty12Bit => 12,
            Duty::Duty13Bit => 13,
            Duty::Duty14Bit => 14,
        }
    }
}

/// The hardware resolution with the given number of bits.
pub fn pwm_duty_config(bits: u32) -> (r: Duty)
    requires
        1 <= bits <= 14,
    ensures
        r.bits() == bits,
{
    match bits {
        1 => Duty::Duty1Bit,
        2 => Duty::Duty2Bit,
        3 => Duty::Duty3Bit,
        4 => Duty::Duty4Bit,
        5 => Duty::Duty5Bit,
        6 => Duty::Duty6Bit,
        7 => Duty::Duty7Bit,
        8 => Duty::Duty8Bit,
        9 => Duty::Duty9Bit,
        10 => Duty::Duty10Bit,
        11 => Duty::Duty11Bit,
        12 => Duty::Duty12Bit,
        13 => Duty::Duty13Bit,
        _ => Duty::Duty14Bit,
    }
}

/// How a number is read: an empty string is zero, and a digit behind a string makes
/// ten times its number plus the digit. A string is refused exactly if a character
/// comes before `0` or the number is too large.
pub proof fn law_digits_count_in_tens(
    s: &str,
    longer: &str,
    r: u64,
    more: u64,
    can: bool,
    can_more: bool,
)
    requires
        longer.spec_bytes().len() == s.spec_bytes().len() + 1,
        longer.spec_bytes().drop_last() == s.spec_bytes(),
        call_ensures(can_parse_u64, (s,), can),
        call_ensures(can_parse_u64, (longer,), can_more),
        can ==> call_ensures(parse_u64, (s,), r),
        can_more ==> call_ensures(parse_u64, (longer,), more),
    ensures
        s.spec_bytes().len() == 0 ==> can && r == 0,
        can_more ==> can && longer.spec_bytes().last() >= 48 && more == 10 * r
            + longer.spec_bytes().last() - 48,
        can && longer.spec_bytes().last() >= 48 ==> (can_more <==> 10 * r
            + longer.spec_bytes().last() - 48 <= 0xffff_ffff_ffff_ffff),
        !can || longer.spec_bytes().last() < 48 ==> !can_more,
{
    let a = s.spec_bytes();
    let b = longer.spec_bytes();
    let n = a.len() as int;
    assert forall|i: int| 0 <= i < n implies a[i] == b[i] by {
        assert(b.drop_last()[i] == b[i]);
    }
    assert(decimal(b) == decimal(a) * 10 + (b.last() - ZERO_DIGIT));
    if forall|i: int| 0 <= i < b.len() ==> b[i] >= ZERO_DIGIT {
        lemma_decimal_prefix(b, n);
        assert(b.take(n) =~= a);
    }
    if can && b.last() >= 48 {
        lemma_decimal_prefix(a, n);
    }
}

/// Log lines come as often as asked for, one iteration per millisecond, and every
/// five hundred iterations unless asked for. The throttle is limited to the percentage
/// asked for and otherwise not at all.
pub proof fn law_settings_have_defaults(
    log: Option<u64>,
    cap: Option<u64>,
    every: u32,
    percent: u8,
)
    requires
        call_ensures(log_every_n, (log,), every),
        call_ensures(throttle_cap, (cap,), percent),
    ensures
        log is None ==> every == 500,
        log matches Some(ms) ==> (ms < 0x1_0000_0000 ==> every == ms),
        log matches Some(ms) ==> ms % 0x1_0000_0000 == every,
        cap is None ==> percent == 100,
        cap matches Some(p) ==> percent == p,
{
}

/// Under a limit the throttle is scaled in proportion: from nothing it grows by the
/// limit with every step of the stick, and at a hundred percent by the whole step.
pub proof fn law_limited_throttle_grows_by_the_limit(
    steps: u16,
    more: u16,
    cap: u8,
    r: u32,
    s: u32,
)
    requires
        more == steps + 1,
        call_ensures(capped_throttle, (steps, cap), r),
        call_ensures(capped_throttle, (more, cap), s),
    ensures
        s == r + cap,
        steps == 0 ==> r == 0,
        cap == 100 ==> r == 100 * steps,
{
    assert((steps + 1) * cap == steps * cap + cap) by (nonlinear_arith);
    assert(steps == 0 ==> steps * cap == 0);
    assert(cap == 100 ==> steps * cap == 100 * steps) by (nonlinear_arith);
}

/// A resolution is the one with that many bits, so no two widths share one.
pub proof fn law_resolutions_have_their_width(bits: u32, r: Duty)
    requires
        call_ensures(pwm_duty_config, (bits,), r),
    ensures
        r == Duty::Duty1Bit <==> bits == 1,
        r == Duty::Duty2Bit <==> bits == 2,
        r == Duty::Duty3Bit <==> bits == 3,
        r == Duty::Duty4Bit <==> bits == 4,
        r == Duty::Duty5Bit <==> bits == 5,
        r == Duty::Duty6Bit <==> bits == 6,
        r == Duty::Duty7Bit <==> bits == 7,
        r == Duty::Duty8Bit <==> bits == 8,
        r == Duty::Duty9Bit <==> bits == 9,
        r == Duty::Duty10Bit <==> bits == 10,
        r == Duty::Duty11Bit <==> bits == 11,
        r == Duty::Duty12Bit <==> bits == 12,
        r == Duty::Duty13Bit <==> bits == 13,
        r == Duty::Duty14Bit <==> bits == 14,
{
}

/// The highest duty is the largest number that the resolution holds.
pub proof fn law_duty_fills_its_resolution()
    ensures
        PWM_MAX_DUTY + 1 == vstd::arithmetic::power2::pow2(PWM_BITS as nat),
{
    vstd::arithmetic::power2::lemma2_to64();
}

} // verus!
