use actual_mcp::actual::number::{Number, Oddity};

fn stored(n: f64) -> Option<i64> {
    Number::from_bits(n.to_bits()).stored_integer()
}

#[test]
fn whole_numbers_in_range_become_integers() {
    for n in [0.0, 1.0, -1.0, 94300.0, -94300.0, 4503599627370496.0, -9007199254740993.0] {
        assert_eq!(stored(n), Some(n as i64), "{n}");
    }
    assert_eq!(stored(-0.0), Some(0));
    assert_eq!(stored(9007199254740992.0 * 2048.0), None);
    assert_eq!(stored(i64::MIN as f64), Some(i64::MIN));
}

#[test]
fn the_first_number_past_the_range_saturates() {
    assert_eq!(stored(i64::MAX as f64), Some(i64::MAX));
    assert_eq!(stored(i64::MAX as f64 * 1.5), None);
    assert_eq!(stored(-(i64::MAX as f64) * 1.5), None);
}

#[test]
fn fractions_stay_fractions() {
    for n in [0.5, -0.5, 1.0e-300, f64::MIN_POSITIVE, 5.0e-324, 4503599627370495.5, 1.0e300] {
        assert_eq!(stored(n), None, "{n}");
    }
}

#[test]
fn the_decision_agrees_with_the_machine() {
    let mut bits: u64 = 0x3ff0_0000_0000_0000;
    for _ in 0..20_000 {
        bits = bits.wrapping_mul(6364136223846793005).wrapping_add(1442695040888963407);
        let n = f64::from_bits(bits);
        let number = Number::from_bits(bits);
        assert_eq!(number.is_finite(), n.is_finite());
        if n.is_finite() {
            let whole = n.fract() == 0.0 && n >= i64::MIN as f64 && n <= i64::MAX as f64;
            assert_eq!(number.stored_integer(), whole.then_some(n as i64), "{n}");
        }
        let small = (n % 1.0e6).trunc() / 4.0;
        if small.is_finite() {
            let whole = small.fract() == 0.0;
            assert_eq!(stored(small), whole.then_some(small as i64), "{small}");
        }
    }
}

#[test]
fn what_is_not_finite_has_a_name() {
    let oddity = |n: f64| Number::from_bits(n.to_bits()).oddity();
    let written = |n: f64| oddity(n).map(|odd| odd.message());
    assert_eq!(oddity(f64::NAN), Some(Oddity::NotANumber));
    assert_eq!(oddity(-f64::NAN), Some(Oddity::NotANumber));
    assert_eq!(oddity(f64::INFINITY), Some(Oddity::Infinity));
    assert_eq!(oddity(f64::NEG_INFINITY), Some(Oddity::NegativeInfinity));
    assert_eq!(written(f64::NAN), Some(format!("{}", f64::NAN)));
    assert_eq!(written(f64::INFINITY), Some(format!("{}", f64::INFINITY)));
    assert_eq!(written(f64::NEG_INFINITY), Some(format!("{}", f64::NEG_INFINITY)));
    assert_eq!(oddity(f64::MAX), None);
    assert_eq!(oddity(0.0), None);
    assert!(!Number::from_bits(f64::NAN.to_bits()).is_finite());
}

#[test]
fn numbers_are_equal_as_numbers() {
    let n = |x: f64| Number::from_bits(x.to_bits());
    let all = [0.0, -0.0, 1.0, -1.0, 0.5, f64::INFINITY, f64::NEG_INFINITY, f64::NAN, f64::MIN_POSITIVE];
    for a in all {
        for b in all {
            assert_eq!(n(a) == n(b), a == b, "{a} {b}");
        }
        assert_eq!(n(a).is_nan(), a.is_nan());
    }
}
