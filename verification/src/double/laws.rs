//! Order laws of the arithmetic: how results compare with what they were made from.
use vstd::arithmetic::div_mod::*;
use vstd::arithmetic::mul::*;
use vstd::arithmetic::power2::*;
use vstd::prelude::*;

use crate::double::{Double, INFINITY_BITS, TWO_52, TWO_53};

verus! {

/// A number that is not "not a number" and not below zero.
pub open spec fn non_negative(a: Double) -> bool {
    !a.is_nan() && a.units() >= 0
}

proof fn lemma_units_nonnegative(a: Double)
    requires
        non_negative(a),
    ensures
        a.units() == a.abs_units(),
        a.negative() ==> a.magnitude() == 0,
{
    if a.negative() && a.magnitude() > 0 {
        crate::double::rounding::lemma_units_monotone(0, a.magnitude());
    }
}

/// Zero is its own nearest double.
proof fn lemma_nearest_zero(den: nat)
    requires
        den > 0,
    ensures
        crate::double::nearest_bits(0, den) == 0,
        crate::double::magnitude_units(0) == 0,
{
    crate::double::rounding::lemma_powers();
    lemma_mul_basics(den as int);
    assert(0nat / den == 0 && 0nat % den == 0) by (nonlinear_arith)
        requires
            den > 0,
    ;
    assert(crate::double::excess_digits(0, den) == 0);
}

/// The value of one.
pub proof fn lemma_one()
    ensures
        Double::one().units() == crate::double::one_units(),
        Double::one().abs_units() == crate::double::one_units(),
        Double::one().positive(),
        crate::double::one_units() > 0,
{
    crate::double::rounding::lemma_powers();
    lemma_pow2_pos(1074);
    lemma_pow2_adds(52, 1022);
    assert(0x3ff0_0000_0000_0000nat / 0x0010_0000_0000_0000nat == 1023);
    assert(0x3ff0_0000_0000_0000nat % 0x0010_0000_0000_0000nat == 0);
}

/// Multiplying by at least one does not make a number smaller.
pub proof fn law_product_grows(a: Double, factor: Double)
    requires
        a.finite(),
        non_negative(a),
        factor.finite(),
        Double::one().at_most(factor),
    ensures
        a.at_most(a.product(factor)),
        non_negative(a.product(factor)),
{
    lemma_one();
    lemma_units_nonnegative(a);
    lemma_units_nonnegative(factor);
    let one: nat = crate::double::one_units();
    let u: nat = a.abs_units();
    let bits: nat = crate::double::nearest_bits(u * factor.abs_units(), one);
    crate::double::rounding::lemma_nearest_exact(a.magnitude());
    assert(u * one <= (u * factor.abs_units()) * 1) by (nonlinear_arith)
        requires
            one <= factor.abs_units(),
    ;
    crate::double::rounding::lemma_nearest_monotone(u, 1, u * factor.abs_units(), one);
    crate::double::rounding::lemma_order_of_bits(a.magnitude(), bits);
    if a.negative() {
        lemma_nearest_zero(one);
        lemma_mul_basics(factor.abs_units() as int);
    }
}

/// Multiplying by at most one does not make a number larger.
pub proof fn law_product_shrinks(a: Double, factor: Double)
    requires
        a.finite(),
        non_negative(a),
        non_negative(factor),
        factor.at_most(Double::one()),
    ensures
        a.product(factor).at_most(a),
        non_negative(a.product(factor)),
{
    lemma_one();
    lemma_units_nonnegative(a);
    lemma_units_nonnegative(factor);
    let one: nat = crate::double::one_units();
    let u: nat = a.abs_units();
    if factor.infinite() {
        lemma_infinity_above_one();
    }
    let bits: nat = crate::double::nearest_bits(u * factor.abs_units(), one);
    crate::double::rounding::lemma_nearest_exact(a.magnitude());
    assert((u * factor.abs_units()) * 1 <= u * one) by (nonlinear_arith)
        requires
            factor.abs_units() <= one,
    ;
    crate::double::rounding::lemma_nearest_monotone(u * factor.abs_units(), one, u, 1);
    crate::double::rounding::lemma_order_of_bits(bits, a.magnitude());
    crate::double::rounding::lemma_order_of_bits(0, bits);
    if a.negative() || factor.negative() {
        lemma_nearest_zero(one);
        lemma_mul_basics(factor.abs_units() as int);
        lemma_mul_basics(u as int);
    }
}

pub proof fn lemma_infinity_above_one()
    ensures
        crate::double::magnitude_units(INFINITY_BITS as nat) > crate::double::one_units(),
{
    lemma_one();
    crate::double::rounding::lemma_units_monotone(
        0x3ff0_0000_0000_0000nat,
        INFINITY_BITS as nat,
    );
}

/// A sum of numbers not below zero is at least each of them.
pub proof fn law_sum_grows(a: Double, b: Double)
    requires
        non_negative(a),
        non_negative(b),
    ensures
        a.at_most(a.sum(b)),
        b.at_most(a.sum(b)),
        non_negative(a.sum(b)),
{
    lemma_units_nonnegative(a);
    lemma_units_nonnegative(b);
    crate::double::rounding::lemma_order_of_bits(a.magnitude(), INFINITY_BITS as nat);
    crate::double::rounding::lemma_order_of_bits(b.magnitude(), INFINITY_BITS as nat);
    if !a.infinite() && !b.infinite() {
        let total: nat = a.abs_units() + b.abs_units();
        let bits: nat = crate::double::nearest_bits(total, 1);
        crate::double::rounding::lemma_nearest_exact(a.magnitude());
        crate::double::rounding::lemma_nearest_exact(b.magnitude());
        crate::double::rounding::lemma_nearest_monotone(a.abs_units(), 1, total, 1);
        crate::double::rounding::lemma_nearest_monotone(b.abs_units(), 1, total, 1);
        crate::double::rounding::lemma_order_of_bits(a.magnitude(), bits);
        crate::double::rounding::lemma_order_of_bits(b.magnitude(), bits);
    }
}

proof fn lemma_units_of_least()
    ensures
        crate::double::magnitude_units(1) == 1,
{
    crate::double::rounding::lemma_powers();
}

/// A quotient of a number not below zero by a positive one is not below zero.
pub proof fn law_quotient_non_negative(a: Double, b: Double)
    requires
        a.finite(),
        non_negative(a),
        b.positive(),
    ensures
        non_negative(a.quotient(b)),
{
    lemma_units_nonnegative(a);
    let bits: nat = crate::double::nearest_bits(
        a.abs_units() * crate::double::one_units(),
        b.abs_units(),
    );
    crate::double::rounding::lemma_order_of_bits(0, bits);
    if a.negative() {
        crate::double::rounding::lemma_order_of_bits(1, b.magnitude());
        lemma_units_of_least();
        lemma_nearest_zero(b.abs_units());
        lemma_mul_basics(crate::double::one_units() as int);
    }
}

/// A quotient does not get smaller when what is divided grows and the divisor shrinks.
pub proof fn law_quotient_grows(a: Double, c: Double, b: Double, d: Double)
    requires
        a.finite(),
        non_negative(a),
        c.positive(),
        a.at_most(b),
        b.units() > 0,
        d.at_most(c),
        !d.negative(),
    ensures
        a.quotient(c).at_most(b.quotient(d)),
{
    lemma_one();
    lemma_units_nonnegative(a);
    lemma_units_nonnegative(b);
    let one: nat = crate::double::one_units();
    if d.infinite() {
        crate::double::rounding::lemma_units_monotone(c.magnitude(), INFINITY_BITS as nat);
    }
    law_quotient_non_negative(a, c);
    crate::double::rounding::lemma_order_of_bits(1, c.magnitude());
    lemma_units_of_least();
    let bits: nat = crate::double::nearest_bits(a.abs_units() * one, c.abs_units());
    crate::double::rounding::lemma_order_of_bits(bits, INFINITY_BITS as nat);
    if !b.infinite() && !d.zero() {
        crate::double::rounding::lemma_order_of_bits(1, d.magnitude());
        let larger: nat = crate::double::nearest_bits(b.abs_units() * one, d.abs_units());
        assert((a.abs_units() * one) * d.abs_units() <= (b.abs_units() * one) * c.abs_units())
            by (nonlinear_arith)
            requires
                a.abs_units() <= b.abs_units(),
                d.abs_units() <= c.abs_units(),
        ;
        crate::double::rounding::lemma_nearest_monotone(
            a.abs_units() * one,
            c.abs_units(),
            b.abs_units() * one,
            d.abs_units(),
        );
        crate::double::rounding::lemma_order_of_bits(bits, larger);
    }
}

/// The distance between two integers.
pub open spec fn distance(a: int, b: int) -> int {
    if a < b {
        b - a
    } else {
        a - b
    }
}

/// A bit pattern made of a significand and a shift stands for the shifted significand.
pub proof fn lemma_units_of_rounded(q: nat, t: nat)
    requires
        q <= TWO_53,
        t > 0 ==> q >= TWO_52,
        q + t * TWO_52 < INFINITY_BITS,
    ensures
        crate::double::magnitude_units((q + t * (TWO_52 as nat)) as nat) == q * pow2(t),
{
    crate::double::rounding::lemma_powers();
    let w: int = TWO_52 as int;
    let magnitude: nat = (q + t * (TWO_52 as nat)) as nat;
    if q < TWO_52 {
        lemma_mul_basics(q as int);
        lemma_fundamental_div_mod_converse(magnitude as int, w, 0, q as int);
    } else if q < TWO_53 {
        lemma_fundamental_div_mod_converse(magnitude as int, w, t as int + 1, q - w);
    } else {
        lemma_fundamental_div_mod_converse(magnitude as int, w, t as int + 2, 0);
        lemma_pow2_unfold(t + 1);
        assert(w * (2 * pow2(t)) == (2 * w) * pow2(t)) by (nonlinear_arith);
    }
}

/// No multiple of the step is nearer than the one rounded to.
proof fn lemma_no_multiple_is_nearer(num: int, step: int, q: int, k: int)
    requires
        step > 0,
        (2 * q - 1) * step <= 2 * num <= (2 * q + 1) * step,
    ensures
        distance(q * step, num) <= distance(k * step, num),
{
    assert((2 * q - 1) * step == 2 * (q * step) - step) by (nonlinear_arith);
    assert((2 * q + 1) * step == 2 * (q * step) + step) by (nonlinear_arith);
    if k < q {
        assert(k * step <= q * step - step) by (nonlinear_arith)
            requires
                k + 1 <= q,
                step > 0,
        ;
    } else if k > q {
        assert(k * step >= q * step + step) by (nonlinear_arith)
            requires
                k >= q + 1,
                step > 0,
        ;
    }
}

/// Rounding gives the nearest double: no finite double lies nearer to `num / den` units than the
/// one rounded to.
pub proof fn law_rounding_is_to_the_nearest(num: nat, den: nat, other: Double)
    requires
        den > 0,
        crate::double::nearest_bits(num, den) < INFINITY_BITS,
        other.finite(),
    ensures
        distance(
            (crate::double::magnitude_units(crate::double::nearest_bits(num, den)) * den) as int,
            num as int,
        ) <= distance((other.abs_units() * den) as int, num as int),
{
    crate::double::rounding::lemma_powers();
    let t: nat = crate::double::excess_digits(num, den);
    let p: nat = pow2(t);
    lemma_pow2_pos(t);
    let step: nat = den * p;
    let q: nat = crate::double::round_half_even(num, step);
    crate::double::rounding::lemma_significand_range(num, den);
    crate::double::rounding::lemma_round_half_even_error(num, step);
    lemma_units_of_rounded(q, t);
    assert((q * p) * den == q * (den * p)) by (nonlinear_arith);
    let (s, e): (nat, nat) = crate::double::rounding::lemma_magnitude_parts(other.magnitude());
    if e >= t {
        let k: nat = s * pow2((e - t) as nat);
        lemma_pow2_adds((e - t) as nat, t);
        assert((s * (pow2((e - t) as nat) * p)) * den == (s * pow2((e - t) as nat)) * (den * p))
            by (nonlinear_arith);
        lemma_no_multiple_is_nearer(num as int, step as int, q as int, k as int);
    } else {
        lemma_no_multiple_is_nearer(num as int, step as int, q as int, TWO_52 as int);
        crate::double::rounding::lemma_excess_bounds(num, den);
        lemma_pow2_adds(52, t);
        if e + 1 < t {
            lemma_pow2_strictly_increases(e + 1, t);
        }
        lemma_pow2_unfold(e + 1);
        let u: nat = other.abs_units();
        assert(u <= TWO_52 * p) by (nonlinear_arith)
            requires
                u == s * pow2(e),
                s < 2 * TWO_52,
                2 * pow2(e) <= p,
        ;
        assert(u * den <= TWO_52 * (den * p)) by (nonlinear_arith)
            requires
                u <= TWO_52 * p,
        ;
        assert(den * (TWO_52 * p) == TWO_52 * (den * p)) by (nonlinear_arith);
    }
}

} // verus!
