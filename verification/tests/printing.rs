use spread_circuit::bignum::Natural;
use spread_circuit::decimal::magnitude::magnitude;
use spread_circuit::decimal::print::{print_double, print_fixed, print_natural};
use spread_circuit::double::Double;

fn d(x: f64) -> Double {
    Double { bits: x.to_bits() }
}

fn check(x: f64) {
    assert_eq!(print_double(d(x)), format!("{x}"));
    assert_eq!(print_fixed(d(x), 2), format!("{x:.2}"));
    assert_eq!(print_fixed(d(x), 4), format!("{x:.4}"));
    assert_eq!(print_fixed(d(x), 6), format!("{x:.6}"));
}

#[test]
fn numbers_print_as_on_the_machine() {
    for x in [
        0.0, -0.0, 1.0, -1.0, 10.0, 100.0, 0.1, 0.2, 0.1 + 0.2, 0.5, 1.5, 2.5, 9.5, 99.5, 0.125, 0.375, 2.675, 1.005,
        42.1, 419.9, 1255.0, 1e15, 1e16, 123456789.125, 0.000001, 1e-7, 9.999999999, 0.99999999999, 4503599627370496.5,
        9007199254740993.0, 1e21, 1e22, 1e23, 5e-324, 2.2250738585072014e-308, 1.7976931348623157e308, 1e300,
        f64::NAN, -f64::NAN, f64::INFINITY, f64::NEG_INFINITY,
    ] {
        check(x);
    }
}

#[test]
fn ties_print_as_on_the_machine() {
    for n in 0..64 {
        let x = n as f64 / 8.0;
        assert_eq!(print_fixed(d(x), 0), format!("{x:.0}"));
        assert_eq!(print_fixed(d(x), 1), format!("{x:.1}"));
        assert_eq!(print_fixed(d(x), 2), format!("{x:.2}"));
    }
}

#[test]
fn random_numbers_print_as_on_the_machine() {
    let mut state: u64 = 2024;
    for n in 0..60 {
        state = state.wrapping_mul(6364136223846793005).wrapping_add(1442695040888963407);
        check((state >> 20) as f64 / 1e6);
        check((state >> 40) as f64 / 1e3);
        if n < 10 {
            let x = f64::from_bits(state ^ (state >> 31));
            assert_eq!(print_double(d(x)), format!("{x}"));
        }
    }
}

#[test]
fn whole_numbers_of_any_size_print() {
    assert_eq!(print_natural(&Natural::zero()), "0");
    assert_eq!(print_natural(&Natural::from_wide(u64::MAX)), u64::MAX.to_string());
    assert_eq!(print_natural(&Natural::from_wide(1).shifted(127)), (1u128 << 127).to_string());
}

#[test]
fn big_numbers_add_shift_and_divide() {
    let a = Natural::from_halves(u64::MAX, u64::MAX);
    assert_eq!(print_natural(&a), u128::MAX.to_string());
    let sum = a.plus(&Natural::from_small(1));
    assert_eq!(print_natural(&sum), "340282366920938463463374607431768211456");
    let (quotient, rest) = sum.divided(1_000_000_007);
    let wanted = u128::MAX / 1_000_000_007;
    assert_eq!(print_natural(&quotient), wanted.to_string());
    assert_eq!(rest as u128, u128::MAX % 1_000_000_007 + 1);
}

#[test]
fn magnitudes_lie_between_powers_of_ten() {
    for power in -300..=300i32 {
        let x = format!("1e{power}").parse::<f64>().unwrap();
        let m = magnitude(d(x));
        assert!(m == power || m == power - 1, "{power}");
        assert_eq!(magnitude(d(-3.3 * x)), power);
    }
    assert_eq!(magnitude(d(999.9999999999999)), 2);
    assert_eq!(magnitude(d(1000.0)), 3);
    assert_eq!(magnitude(d(0.0)), i32::MIN);
    assert_eq!(magnitude(d(f64::INFINITY)), i32::MAX);
    assert_eq!(magnitude(d(f64::NAN)), 0);
    assert_eq!(magnitude(d(5e-324)), -324);
    assert_eq!(magnitude(d(f64::MAX)), 308);
}
