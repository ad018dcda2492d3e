//! When a fill counts as complete, as a relation between sizes.
use vstd::arithmetic::power2::*;
use vstd::prelude::*;

use crate::double::Double;

verus! {

/// The value of a number given by its units and a power of two.
proof fn lemma_scaled_value(d: Double, k: nat, scale: nat, significand: nat)
    requires
        !d.negative(),
        d.abs_units() == significand * pow2(k),
        crate::double::one_units() == scale * pow2(k),
        scale > 0,
    ensures
        d.value() * (scale as real) == significand as real,
{
    lemma_pow2_pos(k);
    crate::double::error::lemma_value(d);
    crate::double::error::lemma_cast_product(significand as int, pow2(k) as int);
    crate::double::error::lemma_cast_product(scale as int, pow2(k) as int);
    let p: real = pow2(k) as real;
    let o: real = crate::double::one_units() as real;
    let v: real = d.value();
    let s: real = significand as real;
    let c: real = scale as real;
    assert(v * c == s) by (nonlinear_arith)
        requires
            v * o == s * p,
            o == c * p,
            p > 0 as real,
    ;
}

/// The values of the two tolerances.
proof fn lemma_tolerances()
    ensures
        Double::billionth().positive(),
        Double::trillionth().positive(),
        99 as real <= 100_000_000_000 as real * Double::billionth().value() <= 101 as real,
        99 as real <= 100_000_000_000_000 as real * Double::trillionth().value() <= 101 as real,
{
    crate::double::rounding::lemma_powers();
    lemma2_to64();
    lemma2_to64_rest();
    lemma_pow2_adds(64, 18);
    lemma_pow2_adds(64, 28);
    lemma_pow2_adds(82, 992);
    lemma_pow2_adds(92, 982);
    let b: nat = 0x3e11_2e0b_e826_d695;
    let t: nat = 0x3d71_9799_812d_ea11;
    assert(b / 0x0010_0000_0000_0000nat == 993);
    assert(b % 0x0010_0000_0000_0000nat == 0x1_2e0b_e826_d695);
    assert(t / 0x0010_0000_0000_0000nat == 983);
    assert(t % 0x0010_0000_0000_0000nat == 0x1_9799_812d_ea11);
    assert(pow2(82) == 4835703278458516698824704);
    assert(pow2(92) == 4951760157141521099596496896);
    lemma_scaled_value(Double::billionth(), 992, pow2(82), 0x11_2e0b_e826_d695);
    lemma_scaled_value(Double::trillionth(), 982, pow2(92), 0x11_9799_812d_ea11);
}

/// A sum that is at most a finite number is finite.
proof fn lemma_sum_finite(a: Double, b: Double, x: Double)
    requires
        a.finite(),
        b.finite(),
        x.finite(),
        a.value() + b.value() <= x.value(),
        a.value() >= 0 as real,
        b.value() >= 0 as real,
    ensures
        a.sum(b).finite(),
{
    crate::double::error::lemma_small();
    crate::double::error::lemma_value(a);
    crate::double::error::lemma_value(b);
    crate::double::error::lemma_value(x);
    let o: real = crate::double::one_units() as real;
    let va: real = a.value();
    let vb: real = b.value();
    let vx: real = x.value();
    assert(va * o + vb * o <= vx * o && va * o >= 0 as real && vb * o >= 0 as real)
        by (nonlinear_arith)
        requires
            va + vb <= vx,
            va >= 0 as real,
            vb >= 0 as real,
            o > 0 as real,
    ;
    let total: int = a.units() + b.units();
    assert(0 <= total <= x.units());
    if total > 0 {
        crate::double::rounding::lemma_nearest_monotone(total as nat, 1, x.abs_units(), 1);
        crate::double::rounding::lemma_nearest_exact(x.magnitude());
    }
}

/// The tolerance lies within a tenth of 10^-9 of the order and 10^-12.
proof fn lemma_tolerance_of_an_order(expected: Double)
    requires
        expected.positive(),
    ensures
        ({
            let tolerance: Double = expected.absolute().product(Double::billionth()).sum(
                Double::trillionth(),
            );
            let share: real = expected.value() / 1_000_000_000 as real + 1 as real
                / 1_000_000_000_000 as real;
            &&& tolerance.finite()
            &&& 9 as real * share <= 10 as real * tolerance.value() <= 11 as real * share
        }),
{
    let b: Double = Double::billionth();
    let t: Double = Double::trillionth();
    let scaled: Double = expected.product(b);
    let tolerance: Double = scaled.sum(t);
    let e: real = expected.value();
    assert(expected.absolute() == expected);
    lemma_tolerances();
    crate::actors::pricing::values::lemma_constants();
    crate::actors::pricing::values::lemma_positive(expected);
    crate::actors::pricing::values::lemma_positive(b);
    crate::actors::pricing::values::lemma_positive(t);
    crate::actors::pricing::laws::lemma_nought();
    crate::double::error::lemma_order(b, Double::one());
    crate::double::error::lemma_order(Double::nought(), expected);
    crate::double::error::lemma_order(Double::nought(), b);
    crate::double::laws::law_product_shrinks(expected, b);
    crate::actors::pricing::values::lemma_not_infinite(scaled, expected);
    crate::double::error::lemma_product_error(expected, b);
    crate::actors::pricing::values::lemma_signs(expected, b);
    crate::liquid::values::lemma_epsilon();
    crate::double::error::lemma_small();
    let u: real = crate::double::error::roundoff();
    let h: real = crate::double::error::half_unit();
    let x: real = e * b.value();
    // 0.99 e <= 10^9 x <= 1.01 e
    crate::double::error::lemma_mul_order(99 as real, 100_000_000_000 as real * b.value(), e);
    crate::double::error::lemma_mul_order(100_000_000_000 as real * b.value(), 101 as real, e);
    crate::double::error::lemma_mul(e, 100_000_000_000 as real, b.value());
    crate::double::error::lemma_mul(100_000_000_000 as real, e, b.value());
    crate::double::error::lemma_mul(e, 99 as real, 0 as real);
    crate::double::error::lemma_mul(e, 101 as real, 0 as real);
    assert(99 as real * e <= 100_000_000_000 as real * x <= 101 as real * e);
    crate::actors::pricing::estimates::lemma_share(x, x);
    let least: real = crate::double::error::least_normal();
    assert(1_000_000_000 as real * h <= u) by {
        crate::double::error::lemma_mul_order(1_000_000_000 as real * least, 1 as real, u);
        crate::double::error::lemma_mul(u, 1_000_000_000 as real, least);
        crate::double::error::lemma_mul(1_000_000_000 as real, u, least);
    }
    if e >= 1 as real {
        lemma_sum_finite(scaled, t, expected);
    } else {
        lemma_sum_finite(scaled, t, Double::one());
    }
    crate::double::error::lemma_sum_error(scaled, t);
    crate::actors::pricing::estimates::lemma_share(scaled.value() + t.value(), scaled.value() + t.value());
}

/// A fill counts as complete where it falls short of the order by no more than about 10^-9 of it
/// and 10^-12: surely where by half of that, and surely not where by twice that.
pub proof fn law_a_fill_is_complete_up_to_a_billionth(expected: Double, actual: Double)
    requires
        expected.positive(),
        actual.finite(),
        actual.value() >= 0 as real,
    ensures
        ({
            let share: real = expected.value() / 1_000_000_000 as real + 1 as real
                / 1_000_000_000_000 as real;
            let missing: real = expected.value() - actual.value();
            &&& 2 as real * missing <= share ==> crate::actors::pricing::complete_fill(
                expected,
                actual,
            )
            &&& crate::actors::pricing::complete_fill(expected, actual) ==> missing <= 2 as real
                * share
        }),
{
    reveal(crate::actors::pricing::complete_fill);
    let tolerance: Double = expected.absolute().product(Double::billionth()).sum(
        Double::trillionth(),
    );
    let total: Double = actual.sum(tolerance);
    let e: real = expected.value();
    let a: real = actual.value();
    lemma_tolerance_of_an_order(expected);
    crate::actors::pricing::values::lemma_positive(expected);
    crate::actors::pricing::values::lemma_constants();
    crate::actors::pricing::laws::lemma_nought();
    crate::double::error::lemma_order(Double::nought(), actual);
    crate::double::error::lemma_order(Double::nought(), tolerance);
    crate::double::error::lemma_order(expected, actual);
    crate::double::error::lemma_order(expected, total);
    crate::double::laws::law_sum_grows(actual, tolerance);
    if a >= e {
        crate::actors::pricing::laws::law_full_fill_is_complete(expected, actual);
    } else if total.finite() {
        crate::double::error::lemma_sum_error(actual, tolerance);
        let both: real = a + tolerance.value();
        let u: real = crate::double::error::roundoff();
        crate::liquid::values::lemma_epsilon();
        crate::double::error::lemma_mul_order(
            1_000_000_000_000_000 as real * u,
            1 as real,
            both,
        );
        crate::double::error::lemma_mul(both, 1_000_000_000_000_000 as real, u);
        crate::double::error::lemma_mul(1_000_000_000_000_000 as real, both, u);
        crate::double::error::lemma_mul(both, u, 0 as real);
        assert(1_000_000_000_000_000 as real * (u * both) <= both);
    } else {
        crate::double::rounding::lemma_units_monotone(expected.magnitude(), total.magnitude());
        if a + tolerance.value() <= e {
            lemma_sum_finite(actual, tolerance, expected);
        }
    }
}

} // verus!
