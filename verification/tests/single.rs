use quad_flight::single::{Single, Vector};

fn s(v: f32) -> Single {
    Single { bits: v.to_bits() }
}

// every kind of number, in both signs
fn specimens() -> Vec<f32> {
    let mut out: Vec<f32> = Vec::new();
    for v in [
        0.0f32,
        f32::from_bits(1),
        f32::from_bits(0x007f_ffff),
        f32::MIN_POSITIVE,
        0.05,
        0.1,
        0.5,
        0.99999994,
        1.0,
        1.0000001,
        3.5,
        1e20,
        f32::MAX,
        f32::INFINITY,
        f32::NAN,
        f32::from_bits(0x7f80_0001),
        f32::from_bits(0x7fff_ffff),
    ] {
        out.push(v);
        out.push(-v);
    }
    out
}

#[test]
fn comparisons_agree_with_the_machine() {
    for a in specimens() {
        for b in specimens() {
            assert_eq!(s(a).lt(s(b)), a < b, "{a} < {b}");
            assert_eq!(s(a).le(s(b)), a <= b, "{a} <= {b}");
            assert_eq!(s(a) == s(b), a == b, "{a} == {b}");
            assert_eq!(s(a).total_lt(s(b)), a.total_cmp(&b).is_lt(), "{a} before {b}");
        }
    }
}

#[test]
fn classification_agrees_with_the_machine() {
    for a in specimens() {
        assert_eq!(s(a).is_nan(), a.is_nan());
        assert_eq!(s(a).is_finite(), a.is_finite());
        assert_eq!(s(a).neg().bits, (-a).to_bits());
        assert_eq!(s(a).abs().bits, a.abs().to_bits());
    }
}

#[test]
fn extremes_agree_with_the_machine() {
    for a in specimens() {
        for b in specimens() {
            let low = f32::from_bits(s(a).min(s(b)).bits);
            let high = f32::from_bits(s(a).max(s(b)).bits);
            assert!(low == a.min(b) || (low.is_nan() && a.min(b).is_nan()));
            assert!(high == a.max(b) || (high.is_nan() && a.max(b).is_nan()));
        }
    }
}

#[test]
fn clamp_agrees_with_the_machine() {
    for a in specimens() {
        for lo in specimens() {
            for hi in specimens() {
                if lo <= hi {
                    let got = f32::from_bits(s(a).clamp(s(lo), s(hi)).bits);
                    let want = a.clamp(lo, hi);
                    assert!(got == want || (got.is_nan() && want.is_nan()));
                }
            }
        }
    }
}

#[test]
fn total_order_extends_the_numeric_one() {
    assert!(s(-0.0).total_lt(s(0.0)));
    assert!(s(1.0).total_lt(s(2.0)));
    assert!(s(f32::INFINITY).total_lt(s(f32::NAN)));
    assert!(s(-f32::NAN).total_lt(s(f32::NEG_INFINITY)));
    assert!(!s(3.0).total_lt(s(3.0)));
}

#[test]
fn vectors_compare_by_component() {
    let a = Vector::new(s(1.0), s(0.0), s(-2.0));
    assert_eq!(a, Vector::new(s(1.0), s(-0.0), s(-2.0)));
    assert_ne!(a, Vector::new(s(1.0), s(0.0), s(2.0)));
    let n = Vector::new(s(f32::NAN), s(0.0), s(0.0));
    assert_ne!(n, n);
    assert_eq!(Vector::zeros(), Vector::new(s(0.0), s(0.0), s(0.0)));
}
