use spread_circuit::double::Double;

fn d(x: f64) -> Double {
    Double { bits: x.to_bits() }
}

fn f(x: Double) -> f64 {
    f64::from_bits(x.bits)
}

fn agrees(got: Double, wanted: f64) -> bool {
    if wanted.is_nan() {
        f(got).is_nan()
    } else {
        got.bits == wanted.to_bits()
    }
}

/// A stream of bit patterns.
struct Patterns(u64);

impl Patterns {
    fn next(&mut self) -> u64 {
        self.0 = self.0.wrapping_mul(6364136223846793005).wrapping_add(1442695040888963407);
        let x = self.0;
        (x ^ (x >> 29)).wrapping_mul(0x9e37_79b9_7f4a_7c15) ^ (x >> 17)
    }
}

fn special() -> Vec<f64> {
    vec![
        0.0,
        -0.0,
        1.0,
        -1.0,
        0.5,
        1.5,
        2.5,
        -2.5,
        0.1,
        0.2,
        0.3,
        1e-10,
        1e-9,
        1e-12,
        1e15,
        9007199254740991.0,
        9007199254740992.0,
        9007199254740993.0,
        1.7976931348623157e308,
        -1.7976931348623157e308,
        2.2250738585072014e-308,
        2.225073858507201e-308,
        5e-324,
        -5e-324,
        1e308,
        10000.0,
        42.123456,
        0.02,
        f64::INFINITY,
        f64::NEG_INFINITY,
        f64::NAN,
    ]
}

fn sample() -> Vec<f64> {
    let mut values = special();
    let mut patterns = Patterns(7);
    for _ in 0..150 {
        values.push(f64::from_bits(patterns.next()));
    }
    for _ in 0..60 {
        // Numbers of ordinary size.
        let bits = patterns.next();
        values.push((bits >> 12) as f64 / 1e9);
        values.push(-((bits >> 40) as f64) / 1e3);
    }
    values
}

#[test]
fn sums_agree_with_the_machine() {
    let values = sample();
    for &a in &values {
        for &b in &values {
            assert!(agrees(d(a).plus(d(b)), a + b), "{a:e} + {b:e}");
        }
    }
}

#[test]
fn differences_agree_with_the_machine() {
    let values = sample();
    for &a in &values {
        for &b in &values {
            assert!(agrees(d(a).minus(d(b)), a - b), "{a:e} - {b:e}");
        }
    }
}

#[test]
fn products_agree_with_the_machine() {
    let values = sample();
    for &a in &values {
        for &b in &values {
            assert!(agrees(d(a).times(d(b)), a * b), "{a:e} * {b:e}");
        }
    }
}

#[test]
fn quotients_agree_with_the_machine() {
    let values = sample();
    for &a in &values {
        for &b in &values {
            assert!(agrees(d(a).over(d(b)), a / b), "{a:e} / {b:e}");
        }
    }
}

#[test]
fn comparisons_agree_with_the_machine() {
    let values = sample();
    for &a in &values {
        for &b in &values {
            assert_eq!(d(a).is_less(d(b)), a < b);
            assert_eq!(d(a).is_at_most(d(b)), a <= b);
            if a != b {
                assert!(agrees(d(a).max(d(b)), a.max(b)));
            }
        }
    }
}

#[test]
fn rounding_to_whole_numbers_agrees_with_the_machine() {
    for &a in &sample() {
        assert!(agrees(d(a).floor(), a.floor()), "floor {a:e}");
        assert!(agrees(d(a).ceil(), a.ceil()), "ceil {a:e}");
        assert!(agrees(d(a).abs(), a.abs()));
        assert!(agrees(d(a).negated(), -a));
        assert_eq!(d(a).is_finite(), a.is_finite());
        assert_eq!(d(a).is_positive(), a.is_finite() && a > 0.0);
        assert_eq!(d(a).is_not_a_number(), a.is_nan());
    }
}

#[test]
fn integers_convert_as_on_the_machine() {
    let mut patterns = Patterns(99);
    for shift in 0..128u32 {
        let value = (((patterns.next() as u128) << 64) | patterns.next() as u128) >> shift;
        assert_eq!(f(Double::from_integer(value)), value as f64);
    }
    assert_eq!(f(Double::from_integer(0)), 0.0);
    assert_eq!(f(Double::from_integer(u128::MAX)), u128::MAX as f64);
    for &a in &[0.0, 0.4, 0.5, 0.6, 1.5, 2.5, 1e15, 123456.789, 9007199254740991.0, 1e38] {
        assert_eq!(d(a).floor_to_integer(), a.floor() as u128);
        assert_eq!(d(a).ceil_to_integer(), a.ceil() as u128);
        assert_eq!(d(a).round_to_integer(), a.round() as u128);
    }
}

#[test]
fn constants_have_their_values() {
    assert_eq!(f(Double::nought()), 0.0);
    assert_eq!(f(Double::one()), 1.0);
    assert_eq!(f(Double::hundred()), 100.0);
    assert_eq!(f(Double::basis_points()), 10000.0);
    assert_eq!(f(Double::quadrillion()), 1e15);
    assert_eq!(f(Double::billionth()), 1e-9);
    assert_eq!(f(Double::tenth_of_billionth()), 1e-10);
    assert_eq!(f(Double::trillionth()), 1e-12);
}

#[test]
fn multiplying_by_at_least_one_does_not_shrink() {
    let mut patterns = Patterns(3);
    for _ in 0..500 {
        let a = f64::from_bits(patterns.next() & 0x7fff_ffff_ffff_ffff);
        if !a.is_finite() {
            continue;
        }
        let factor = 1.0 + (patterns.next() >> 11) as f64 / 9007199254740992.0;
        assert!(d(a).is_at_most(d(a).times(d(factor))));
        assert!(d(a).times(d(1.0 / factor)).is_at_most(d(a)));
        assert!(d(a).is_at_most(d(a).plus(d(factor))));
    }
}

#[test]
fn rounding_is_to_the_nearest_with_ties_to_even() {
    // 2^53 + 1 lies half way between two doubles and goes to the even one.
    assert_eq!(f(Double::from_integer(9007199254740993)), 9007199254740992.0);
    assert_eq!(f(Double::from_integer(9007199254740995)), 9007199254740996.0);
    // Above the largest double by half a step or more lies infinity.
    assert_eq!(f(d(f64::MAX).plus(d(2f64.powi(970)))), f64::INFINITY);
    assert_eq!(f(d(f64::MAX).plus(d(2f64.powi(969)))), f64::MAX);
}
