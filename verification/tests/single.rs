use orbital_sim::single::{
    abs, le, lt, neg, number, rank_of, sign, Sign, HALF, NEGATIVE_INFINITY, ONE,
    POSITIVE_INFINITY, SIGN_BIT,
};

fn samples() -> Vec<f32> {
    vec![
        f32::NEG_INFINITY,
        f32::MIN,
        -1.0e6,
        -2.5,
        -1.0,
        -0.5,
        -3.0e-4,
        -f32::MIN_POSITIVE,
        -1.0e-45,
        -0.0,
        0.0,
        1.0e-45,
        f32::MIN_POSITIVE,
        3.0e-4,
        0.01,
        0.5,
        0.7,
        1.0,
        1.0000001,
        2.5,
        1.0e6,
        f32::MAX,
        f32::INFINITY,
        f32::NAN,
        -f32::NAN,
    ]
}

#[test]
fn constants_are_the_patterns_of_their_values() {
    assert_eq!(ONE, 1.0f32.to_bits());
    assert_eq!(HALF, 0.5f32.to_bits());
    assert_eq!(POSITIVE_INFINITY, f32::INFINITY.to_bits());
    assert_eq!(NEGATIVE_INFINITY, f32::NEG_INFINITY.to_bits());
    assert_eq!(SIGN_BIT, (-0.0f32).to_bits());
}

#[test]
fn number_tells_numbers_from_the_rest() {
    for v in samples() {
        assert_eq!(number(v.to_bits()), !v.is_nan(), "{v}");
    }
    assert!(!number(0x7F80_0001));
    assert!(!number(0x7FFF_FFFF));
    assert!(!number(0xFF80_0001));
    assert!(!number(0xFFFF_FFFF));
}

#[test]
fn lt_and_le_agree_with_the_floating_point_comparisons() {
    for a in samples() {
        for b in samples() {
            assert_eq!(lt(a.to_bits(), b.to_bits()), a < b, "{a} < {b}");
            assert_eq!(le(a.to_bits(), b.to_bits()), a <= b, "{a} <= {b}");
        }
    }
}

#[test]
fn both_zeros_have_rank_zero() {
    assert_eq!(rank_of(0), 0);
    assert_eq!(rank_of(SIGN_BIT), 0);
    assert_eq!(rank_of(ONE), 0x3F80_0000);
    assert_eq!(rank_of((-1.0f32).to_bits()), -0x3F80_0000);
}

#[test]
fn abs_and_neg_agree_with_the_floating_point_operations() {
    for v in samples() {
        assert_eq!(abs(v.to_bits()), v.abs().to_bits(), "{v}");
        assert_eq!(neg(v.to_bits()), (-v).to_bits(), "{v}");
        assert_eq!(neg(neg(v.to_bits())), v.to_bits(), "{v}");
    }
}

#[test]
fn sign_agrees_with_signum() {
    for v in samples() {
        let expected = if v.is_nan() {
            Sign::Zero
        } else if v.signum() == 1.0 {
            Sign::Positive
        } else {
            Sign::Negative
        };
        assert_eq!(sign(v.to_bits()), expected, "{v}");
    }
    assert_eq!(sign(0), Sign::Positive);
    assert_eq!(sign(SIGN_BIT), Sign::Negative);
}

#[test]
fn signs_as_numbers() {
    assert_eq!(Sign::Negative.number(), -1);
    assert_eq!(Sign::Zero.number(), 0);
    assert_eq!(Sign::Positive.number(), 1);
}
