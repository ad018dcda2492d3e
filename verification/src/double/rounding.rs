//! Facts about rounding to the nearest double.
use vstd::arithmetic::div_mod::*;
use vstd::arithmetic::mul::*;
use vstd::arithmetic::power2::*;
use vstd::prelude::*;

use crate::double::{INFINITY_BITS, TWO_52, TWO_53};

verus! {

/// 2^52 and 2^53 as powers of two.
pub proof fn lemma_powers()
    ensures
        pow2(0) == 1,
        pow2(1) == 2,
        pow2(52) == TWO_52,
        pow2(53) == TWO_53,
        TWO_53 == 2 * TWO_52,
{
    lemma2_to64();
    lemma2_to64_rest();
}

/// `den * 2^(e + 1)` is twice `den * 2^e`.
proof fn lemma_double_power(den: nat, e: nat)
    ensures
        den * pow2(e + 1) == 2 * (den * pow2(e)),
        (2 * den) * pow2(e) == den * pow2(e + 1),
{
    lemma_pow2_unfold(e + 1);
    assert(den * (2 * pow2(e)) == 2 * (den * pow2(e))) by (nonlinear_arith);
    assert((2 * den) * pow2(e) == 2 * (den * pow2(e))) by (nonlinear_arith);
}

/// The bounds that single out the number of excess digits.
pub proof fn lemma_excess_bounds(num: nat, den: nat)
    requires
        den > 0,
    ensures
        num < den * pow2(53 + crate::double::excess_digits(num, den)),
        crate::double::excess_digits(num, den) > 0 ==> num >= den * pow2(
            52 + crate::double::excess_digits(num, den),
        ),
    decreases num - den,
{
    lemma_powers();
    if num >= den * TWO_53 {
        assert(num >= 2 * den) by (nonlinear_arith)
            requires
                num >= den * TWO_53,
                den > 0,
        ;
        lemma_excess_bounds(num, 2 * den);
        let t: nat = crate::double::excess_digits(num, 2 * den);
        lemma_double_power(den, 53 + t);
        lemma_double_power(den, 52 + t);
        if t == 0 {
            assert(den * pow2(53) == den * TWO_53);
        }
    }
}

/// The number of excess digits is the only one within its bounds.
pub proof fn lemma_excess_unique(num: nat, den: nat, t: nat)
    requires
        den > 0,
        num < den * pow2(53 + t),
        t > 0 ==> num >= den * pow2(52 + t),
    ensures
        crate::double::excess_digits(num, den) == t,
    decreases t,
{
    lemma_powers();
    if t > 0 {
        let e: nat = (t - 1) as nat;
        lemma_double_power(den, 52 + t);
        lemma_double_power(den, 52 + e);
        assert(52 + e + 1 == 52 + t);
        assert(53 + e + 1 == 53 + t);
        lemma_double_power(den, 53 + e);
        if t > 1 {
            lemma_double_power(den, 51 + t);
        }
        assert(den * pow2(52 + t) >= den * TWO_53) by {
            if t > 1 {
                lemma_pow2_strictly_increases(53, 52 + t);
            }
            lemma_mul_inequality(TWO_53 as int, pow2(52 + t) as int, den as int);
            lemma_mul_is_commutative(TWO_53 as int, den as int);
            lemma_mul_is_commutative(pow2(52 + t) as int, den as int);
        }
        lemma_excess_unique(num, 2 * den, e);
    }
}

/// Rounding a quotient sees only its value, not the terms of the fraction.
pub proof fn lemma_round_scaled(num: nat, den: nat, k: nat)
    requires
        den > 0,
        k > 0,
    ensures
        k * den > 0,
        crate::double::round_half_even(k * num, k * den) == crate::double::round_half_even(
            num,
            den,
        ),
{
    let q: int = (num / den) as int;
    let r: int = (num % den) as int;
    lemma_fundamental_div_mod(num as int, den as int);
    lemma_mod_bound(num as int, den as int);
    assert(k * den > 0) by (nonlinear_arith)
        requires
            k > 0,
            den > 0,
    ;
    assert(k * num == q * (k * den) + k * r) by (nonlinear_arith)
        requires
            num == den * q + r,
    ;
    assert(0 <= k * r < k * den) by (nonlinear_arith)
        requires
            k > 0,
            0 <= r < den,
    ;
    lemma_fundamental_div_mod_converse((k * num) as int, (k * den) as int, q, k * r);
    assert((2 * (k * r) < k * den) == (2 * r < den)) by (nonlinear_arith)
        requires
            k > 0,
    ;
    assert((2 * (k * r) == k * den) == (2 * r == den)) by (nonlinear_arith)
        requires
            k > 0,
    ;
}

/// The nearest double sees only the value of the fraction, not its terms.
pub proof fn lemma_nearest_scaled(num: nat, den: nat, k: nat)
    requires
        den > 0,
        k > 0,
    ensures
        k * den > 0,
        crate::double::nearest_bits(k * num, k * den) == crate::double::nearest_bits(num, den),
{
    let t: nat = crate::double::excess_digits(num, den);
    lemma_excess_bounds(num, den);
    let high: nat = pow2(53 + t);
    let low: nat = pow2(52 + t);
    assert(k * den > 0) by (nonlinear_arith)
        requires
            k > 0,
            den > 0,
    ;
    assert(k * num < (k * den) * high) by (nonlinear_arith)
        requires
            num < den * high,
            k > 0,
    ;
    if t > 0 {
        assert(k * num >= (k * den) * low) by (nonlinear_arith)
            requires
                num >= den * low,
                k > 0,
        ;
    }
    lemma_excess_unique(k * num, k * den, t);
    lemma_pow2_pos(t);
    assert(den * pow2(t) > 0) by (nonlinear_arith)
        requires
            den > 0,
            pow2(t) > 0,
    ;
    lemma_round_scaled(num, den * pow2(t), k);
    assert(k * (den * pow2(t)) == (k * den) * pow2(t)) by (nonlinear_arith);
}

/// What rounding to the nearest integer guarantees.
pub proof fn lemma_round_half_even_error(num: nat, den: nat)
    requires
        den > 0,
    ensures
        ({
            let r: int = crate::double::round_half_even(num, den) as int;
            &&& (2 * r - 1) * den <= 2 * num <= (2 * r + 1) * den
            &&& (2 * num == (2 * r - 1) * den || 2 * num == (2 * r + 1) * den) ==> r % 2 == 0
        }),
{
    let q: int = (num / den) as int;
    let s: int = (num % den) as int;
    let r: int = crate::double::round_half_even(num, den) as int;
    lemma_fundamental_div_mod(num as int, den as int);
    lemma_mod_bound(num as int, den as int);
    assert((2 * q - 1) * den == 2 * (den * q) - den) by (nonlinear_arith);
    assert((2 * q + 1) * den == 2 * (den * q) + den) by (nonlinear_arith);
    assert((2 * (q + 1) - 1) * den == 2 * (den * q) + den) by (nonlinear_arith);
    assert((2 * (q + 1) + 1) * den == 2 * (den * q) + 3 * den) by (nonlinear_arith);
}

/// Rounding to the nearest integer keeps the order of quotients.
pub proof fn lemma_round_monotone(n1: nat, d1: nat, n2: nat, d2: nat)
    requires
        d1 > 0,
        d2 > 0,
        n1 * d2 <= n2 * d1,
    ensures
        crate::double::round_half_even(n1, d1) <= crate::double::round_half_even(n2, d2),
{
    let r1: int = crate::double::round_half_even(n1, d1) as int;
    let r2: int = crate::double::round_half_even(n2, d2) as int;
    lemma_round_half_even_error(n1, d1);
    lemma_round_half_even_error(n2, d2);
    if r1 > r2 {
        let low: int = 2 * r1 - 1;
        let high: int = 2 * r2 + 1;
        assert((low - high) * (d1 * d2) >= 0) by (nonlinear_arith)
            requires
                low >= high,
                d1 > 0,
                d2 > 0,
        ;
        assert(low * (d1 * d2) <= 2 * (n1 * d2)) by (nonlinear_arith)
            requires
                low * d1 <= 2 * n1,
                d2 > 0,
        ;
        assert(2 * (n2 * d1) <= high * (d1 * d2)) by (nonlinear_arith)
            requires
                2 * n2 <= high * d2,
                d1 > 0,
        ;
        assert((low - high) * (d1 * d2) == low * (d1 * d2) - high * (d1 * d2)) by (nonlinear_arith);
        assert((low - high) * (d1 * d2) == 0);
        assert(low == high) by (nonlinear_arith)
            requires
                (low - high) * (d1 * d2) == 0,
                d1 > 0,
                d2 > 0,
        ;
        assert(low * d1 == 2 * n1) by (nonlinear_arith)
            requires
                low * (d1 * d2) == 2 * (n1 * d2),
                d2 > 0,
        ;
        assert(high * d2 == 2 * n2) by (nonlinear_arith)
            requires
                high * (d1 * d2) == 2 * (n2 * d1),
                d1 > 0,
        ;
        assert(r1 == r2 + 1);
    }
}

/// The rounded significand has at most 53 digits, and all 53 of them where digits were cut.
pub proof fn lemma_significand_range(num: nat, den: nat)
    requires
        den > 0,
    ensures
        ({
            let t: nat = crate::double::excess_digits(num, den);
            let q: nat = crate::double::round_half_even(num, den * pow2(t));
            &&& den * pow2(t) > 0
            &&& q <= TWO_53
            &&& t > 0 ==> q >= TWO_52
        }),
{
    lemma_powers();
    let t: nat = crate::double::excess_digits(num, den);
    let d: nat = den * pow2(t);
    lemma_excess_bounds(num, den);
    lemma_pow2_pos(t);
    assert(d > 0) by (nonlinear_arith)
        requires
            d == den * pow2(t),
            den > 0,
            pow2(t) > 0,
    ;
    lemma_pow2_adds(53, t);
    lemma_pow2_adds(52, t);
    assert(den * (pow2(53) * pow2(t)) == pow2(53) * d) by (nonlinear_arith)
        requires
            d == den * pow2(t),
    ;
    assert(den * (pow2(52) * pow2(t)) == pow2(52) * d) by (nonlinear_arith)
        requires
            d == den * pow2(t),
    ;
    lemma_fundamental_div_mod(num as int, d as int);
    lemma_mod_bound(num as int, d as int);
    let q: int = (num / d) as int;
    let r: int = (num % d) as int;
    assert(q < TWO_53) by (nonlinear_arith)
        requires
            d * q + r < TWO_53 * d,
            r >= 0,
            d > 0,
    ;
    if t > 0 {
        assert(q >= TWO_52) by (nonlinear_arith)
            requires
                d * q + r >= TWO_52 * d,
                r < d,
                d > 0,
        ;
    }
}

/// A larger fraction has no fewer excess digits.
proof fn lemma_excess_monotone(n1: nat, d1: nat, n2: nat, d2: nat)
    requires
        d1 > 0,
        d2 > 0,
        n1 * d2 <= n2 * d1,
    ensures
        crate::double::excess_digits(n1, d1) <= crate::double::excess_digits(n2, d2),
{
    let t1: nat = crate::double::excess_digits(n1, d1);
    let t2: nat = crate::double::excess_digits(n2, d2);
    lemma_excess_bounds(n1, d1);
    lemma_excess_bounds(n2, d2);
    if t1 > t2 {
        let low: nat = pow2(52 + t1);
        let high: nat = pow2(53 + t2);
        if 52 + t1 > 53 + t2 {
            lemma_pow2_strictly_increases(53 + t2, 52 + t1);
        }
        assert(low >= high);
        assert(n1 * d2 >= low * (d1 * d2)) by (nonlinear_arith)
            requires
                n1 >= d1 * low,
        ;
        assert(n2 * d1 < high * (d1 * d2)) by (nonlinear_arith)
            requires
                n2 < d2 * high,
                d1 > 0,
        ;
        assert(high * (d1 * d2) <= low * (d1 * d2)) by (nonlinear_arith)
            requires
                high <= low,
        ;
    }
}

/// Rounding to the nearest double keeps the order.
pub proof fn lemma_nearest_monotone(n1: nat, d1: nat, n2: nat, d2: nat)
    requires
        d1 > 0,
        d2 > 0,
        n1 * d2 <= n2 * d1,
    ensures
        crate::double::nearest_bits(n1, d1) <= crate::double::nearest_bits(n2, d2),
{
    let t1: nat = crate::double::excess_digits(n1, d1);
    let t2: nat = crate::double::excess_digits(n2, d2);
    lemma_powers();
    lemma_excess_monotone(n1, d1, n2, d2);
    lemma_significand_range(n1, d1);
    lemma_significand_range(n2, d2);
    if t1 == t2 {
        let p: nat = pow2(t1);
        lemma_pow2_pos(t1);
        assert(n1 * (d2 * p) <= n2 * (d1 * p)) by (nonlinear_arith)
            requires
                n1 * d2 <= n2 * d1,
        ;
        lemma_round_monotone(n1, d1 * p, n2, d2 * p);
    } else {
        assert(t1 * TWO_52 + TWO_52 <= t2 * TWO_52) by (nonlinear_arith)
            requires
                t1 + 1 <= t2,
        ;
    }
}

/// The parts of an unsigned bit pattern.
pub proof fn lemma_magnitude_parts(magnitude: nat) -> (parts: (nat, nat))
    requires
        magnitude <= INFINITY_BITS,
    ensures
        crate::double::magnitude_units(magnitude) == parts.0 * pow2(parts.1),
        magnitude == parts.0 + parts.1 * TWO_52,
        parts.0 < TWO_53,
        parts.1 > 0 ==> parts.0 >= TWO_52,
        parts.1 <= 2046,
        magnitude < INFINITY_BITS ==> parts.1 <= 2045,
{
    lemma_powers();
    let exponent: nat = magnitude / (TWO_52 as nat);
    let fraction: nat = magnitude % (TWO_52 as nat);
    if exponent == 0 {
        lemma_mul_basics(fraction as int);
        assert(fraction * pow2(0) == fraction);
        (fraction, 0)
    } else {
        ((TWO_52 + fraction) as nat, (exponent - 1) as nat)
    }
}

/// Rounding leaves a representable value as it is.
pub proof fn lemma_nearest_exact(magnitude: nat)
    requires
        magnitude <= INFINITY_BITS,
    ensures
        crate::double::nearest_bits(crate::double::magnitude_units(magnitude), 1) == magnitude,
{
    lemma_powers();
    let (m, t): (nat, nat) = lemma_magnitude_parts(magnitude);
    let u: nat = m * pow2(t);
    lemma_pow2_pos(t);
    lemma_pow2_adds(53, t);
    lemma_pow2_adds(52, t);
    assert(u < pow2(53) * pow2(t)) by (nonlinear_arith)
        requires
            u == m * pow2(t),
            m < pow2(53),
            pow2(t) > 0,
    ;
    if t > 0 {
        assert(u >= pow2(52) * pow2(t)) by (nonlinear_arith)
            requires
                u == m * pow2(t),
                m >= pow2(52),
        ;
    }
    lemma_excess_unique(u, 1, t);
    lemma_fundamental_div_mod_converse(u as int, pow2(t) as int, m as int, 0);
}

/// A larger bit pattern stands for a larger value.
pub proof fn lemma_units_monotone(a: nat, b: nat)
    requires
        a < b <= INFINITY_BITS,
    ensures
        crate::double::magnitude_units(a) < crate::double::magnitude_units(b),
{
    if crate::double::magnitude_units(a) >= crate::double::magnitude_units(b) {
        lemma_nearest_exact(a);
        lemma_nearest_exact(b);
        lemma_nearest_monotone(
            crate::double::magnitude_units(b),
            1,
            crate::double::magnitude_units(a),
            1,
        );
    }
}

/// A larger bit pattern stands for a number that is at least as large.
pub proof fn lemma_order_of_bits(a: nat, b: nat)
    requires
        a <= b <= INFINITY_BITS,
    ensures
        crate::double::magnitude_units(a) <= crate::double::magnitude_units(b),
{
    if a < b {
        lemma_units_monotone(a, b);
    }
}

/// A number of at most 53 binary digits is represented exactly, whatever its scale.
pub proof fn lemma_representable(significand: nat, exponent: nat)
    requires
        significand < TWO_53,
        exponent <= 2045,
    ensures
        ({
            let units: nat = significand * pow2(exponent);
            let bits: nat = crate::double::nearest_bits(units, 1);
            bits < INFINITY_BITS && crate::double::magnitude_units(bits) == units
        }),
    decreases exponent,
{
    lemma_powers();
    if significand >= TWO_52 || exponent == 0 {
        let magnitude: nat = significand + exponent * (TWO_52 as nat);
        if significand >= TWO_52 {
            lemma_fundamental_div_mod_converse(
                magnitude as int,
                TWO_52 as int,
                exponent as int + 1,
                significand - TWO_52,
            );
        } else {
            lemma_mul_basics(significand as int);
            lemma_fundamental_div_mod_converse(
                magnitude as int,
                TWO_52 as int,
                0,
                significand as int,
            );
        }
        assert(crate::double::magnitude_units(magnitude) == significand * pow2(exponent));
        lemma_nearest_exact(magnitude);
    } else {
        lemma_pow2_unfold(exponent);
        assert((2 * significand) * pow2((exponent - 1) as nat) == significand * (2 * pow2(
            (exponent - 1) as nat,
        ))) by (nonlinear_arith);
        lemma_representable(2 * significand, (exponent - 1) as nat);
    }
}

} // verus!
