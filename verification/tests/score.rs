use temper::score::Score;

fn s(x: f64) -> Score {
    Score { bits: x.to_bits() }
}

fn samples() -> Vec<f64> {
    vec![
        0.0,
        -0.0,
        1.0,
        -1.0,
        0.5,
        0.1,
        0.3,
        0.65,
        1e300,
        -1e300,
        f64::MAX,
        f64::MIN,
        f64::MIN_POSITIVE,
        -f64::MIN_POSITIVE,
        f64::from_bits(1),
        f64::from_bits(2),
        f64::from_bits(3),
        f64::from_bits(5),
        f64::from_bits(7),
        f64::from_bits(0x0010_0000_0000_0001),
        f64::from_bits(0x000F_FFFF_FFFF_FFFF),
        f64::from_bits(0x001F_FFFF_FFFF_FFFF),
        f64::from_bits(0x0020_0000_0000_0000),
        -f64::from_bits(3),
        f64::INFINITY,
        f64::NEG_INFINITY,
    ]
}

#[test]
fn scores_compare_as_their_numbers() {
    for a in samples() {
        for b in samples() {
            assert_eq!(s(a).is_less(s(b)), a < b, "{a} < {b}");
            assert_eq!(s(a).at_least(s(b)), a >= b, "{a} >= {b}");
        }
        assert!(!s(a).is_less(s(f64::NAN)));
        assert!(!s(f64::NAN).is_less(s(a)));
        assert!(!s(f64::NAN).at_least(s(a)));
    }
}

#[test]
fn half_a_score_is_half_its_number() {
    for a in samples() {
        assert_eq!(s(a).halve().bits, (a * 0.5).to_bits(), "half of {a:e}");
    }
    assert!(f64::from_bits(s(f64::NAN).halve().bits).is_nan());
}

#[test]
fn the_larger_score_is_the_larger_number() {
    assert_eq!(s(0.2).max_with(s(0.5)), s(0.5));
    assert_eq!(s(0.7).max_with(s(0.5)), s(0.7));
    assert_eq!(s(f64::NAN).max_with(s(0.5)), s(0.5));
}

#[test]
fn halving_keeps_the_order() {
    for a in samples() {
        for b in samples() {
            if a < b {
                assert!(!s(b).halve().is_less(s(a).halve()));
            }
        }
    }
}
