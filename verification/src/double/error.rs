//! How far rounding takes a result from the exact value.
//!
//! Values are read as real numbers here. Every operation gives the exact result up to a relative
//! 2^-53, and up to half the smallest positive double where the result is too small for that.
use vstd::arithmetic::power2::*;
use vstd::prelude::*;

use crate::double::{Double, INFINITY_BITS, TWO_52, TWO_53};

verus! {

impl Double {
    /// The number that a double stands for.
    pub open spec fn value(self) -> real {
        self.units() as real / crate::double::one_units() as real
    }
}

/// 2^-53, the relative error of one rounding.
pub open spec fn roundoff() -> real {
    1 as real / (TWO_53 as real)
}

/// Half the smallest positive double.
pub open spec fn half_unit() -> real {
    1 as real / ((2 * crate::double::one_units()) as real)
}

/// 2^-1022, from which on the relative error holds.
pub open spec fn least_normal() -> real {
    TWO_52 as real / crate::double::one_units() as real
}

/// The absolute value.
pub open spec fn size_of(x: real) -> real {
    if x < 0 as real {
        -x
    } else {
        x
    }
}

/// Whether two numbers lie no further apart than `bound`.
pub open spec fn within(x: real, y: real, bound: real) -> bool {
    size_of(x - y) <= bound
}

/// What is known of the small quantities.
pub proof fn lemma_small()
    ensures
        (0 as real) < roundoff(),
        1_000_000 as real * roundoff() <= 1 as real,
        (0 as real) < half_unit() <= roundoff(),
        half_unit() == roundoff() * least_normal(),
        (0 as real) < least_normal() <= 1 as real,
        crate::double::one_units() > TWO_53,
{
    crate::double::rounding::lemma_powers();
    let one: nat = crate::double::one_units();
    lemma_pow2_strictly_increases(53, 1074);
    let o: real = one as real;
    let t: real = TWO_53 as real;
    let w: real = TWO_52 as real;
    assert(o > t);
    assert(t == 2 as real * w);
    assert((2 * one) as real == 2 as real * o);
    assert((0 as real) < 1 as real / t && 1_000_000 as real * (1 as real / t) <= 1 as real) by (
        nonlinear_arith)
        requires
            t == 9007199254740992 as real,
    ;
    assert((0 as real) < 1 as real / (2 as real * o) <= 1 as real / t) by (nonlinear_arith)
        requires
            o > t,
            t > 0 as real,
    ;
    assert(1 as real / (2 as real * o) == (1 as real / t) * (w / o)) by (nonlinear_arith)
        requires
            o > 0 as real,
            w > 0 as real,
            t == 2 as real * w,
    ;
    assert((0 as real) < w / o <= 1 as real) by (nonlinear_arith)
        requires
            o > w,
            w > 0 as real,
    ;
}

/// How far rounding to the nearest double goes, in units.
pub proof fn lemma_nearest_error(num: nat, den: nat)
    requires
        den > 0,
        crate::double::nearest_bits(num, den) < INFINITY_BITS,
    ensures
        ({
            let off: int = crate::double::magnitude_units(crate::double::nearest_bits(num, den))
                * den - num;
            &&& -(num + TWO_52 * den) <= TWO_53 * off <= num + TWO_52 * den
            &&& den == 1 ==> -num <= TWO_53 * off <= num
        }),
{
    crate::double::rounding::lemma_powers();
    let t: nat = crate::double::excess_digits(num, den);
    let p: nat = pow2(t);
    lemma_pow2_pos(t);
    let step: nat = den * p;
    let q: nat = crate::double::round_half_even(num, step);
    crate::double::rounding::lemma_significand_range(num, den);
    crate::double::rounding::lemma_round_half_even_error(num, step);
    crate::double::laws::lemma_units_of_rounded(q, t);
    assert((q * p) * den == q * (den * p)) by (nonlinear_arith);
    let off: int = q * step - num;
    assert((2 * q - 1) * step == 2 * (q * step) - step) by (nonlinear_arith);
    assert((2 * q + 1) * step == 2 * (q * step) + step) by (nonlinear_arith);
    assert(-step <= 2 * off <= step);
    crate::double::rounding::lemma_excess_bounds(num, den);
    if t == 0 {
        assert(step == den) by (nonlinear_arith)
            requires
                step == den * p,
                p == 1,
        ;
    } else {
        lemma_pow2_adds(52, t);
        assert(den * (TWO_52 * p) == TWO_52 * (den * p)) by (nonlinear_arith);
        assert(num >= TWO_52 * step);
    }
}

/// A product of integers is the product of the real numbers that they are.
pub proof fn lemma_cast_product(a: int, b: int)
    ensures
        (a * b) as real == (a as real) * (b as real),
{
    assert((a * b) as real == (a as real) * (b as real)) by (nonlinear_arith);
}

/// The value of a double by its sign and size.
pub proof fn lemma_value(a: Double)
    ensures
        a.negative() ==> a.value() == -(a.abs_units() as real / crate::double::one_units() as real),
        !a.negative() ==> a.value() == a.abs_units() as real / crate::double::one_units() as real,
        a.abs_units() as real / crate::double::one_units() as real >= 0 as real,
        size_of(a.value()) == a.abs_units() as real / crate::double::one_units() as real,
        a.units() as real == a.value() * (crate::double::one_units() as real),
{
    lemma_small();
    let one: real = crate::double::one_units() as real;
    let m: real = a.abs_units() as real;
    assert(m / one >= 0 as real) by (nonlinear_arith)
        requires
            m >= 0 as real,
            one > 0 as real,
    ;
    assert(-(m / one) == (-m) / one) by (nonlinear_arith)
        requires
            one > 0 as real,
    ;
    let v: real = a.units() as real;
    assert((v / one) * one == v) by (nonlinear_arith)
        requires
            one > 0 as real,
    ;
}

/// The order of doubles is that of their values.
pub proof fn lemma_order(a: Double, b: Double)
    ensures
        a.units() <= b.units() <==> a.value() <= b.value(),
        a.units() < b.units() <==> a.value() < b.value(),
{
    lemma_value(a);
    lemma_value(b);
    lemma_small();
    let one: real = crate::double::one_units() as real;
    let x: real = a.value();
    let y: real = b.value();
    assert(x <= y <==> x * one <= y * one) by (nonlinear_arith)
        requires
            one > 0 as real,
    ;
    assert(x < y <==> x * one < y * one) by (nonlinear_arith)
        requires
            one > 0 as real,
    ;
}

/// What a double made of a sign and a bit pattern stands for.
proof fn lemma_signed_value(negative: bool, bits: nat)
    requires
        bits < INFINITY_BITS,
    ensures
        ({
            let w: real = crate::double::magnitude_units(bits) as real
                / crate::double::one_units() as real;
            &&& Double::signed(negative, bits).value() == if negative {
                -w
            } else {
                w
            }
            &&& Double::signed(negative, bits).finite()
        }),
{
    lemma_value(Double::signed(negative, bits));
}

/// A rounding error in units, as a real number.
pub proof fn lemma_scaled_error(w: real, num: real, den: real, one: real, extra: real)
    requires
        den > 0 as real,
        one > 0 as real,
        num >= 0 as real,
        -(num + extra) <= (TWO_53 as real) * (w * den - num) <= num + extra,
    ensures
        within(
            w / one,
            num / (den * one),
            roundoff() * (num / (den * one)) + roundoff() * (extra / (den * one)),
        ),
{
    let t: real = TWO_53 as real;
    let u: real = roundoff();
    let d: real = den * one;
    assert(d > 0 as real) by (nonlinear_arith)
        requires
            d == den * one,
            den > 0 as real,
            one > 0 as real,
    ;
    let off: real = w * den - num;
    assert(u * t == 1 as real) by (nonlinear_arith)
        requires
            u == 1 as real / t,
            t == 9007199254740992 as real,
    ;
    let bound: real = num + extra;
    assert(-(u * bound) <= off <= u * bound) by (nonlinear_arith)
        requires
            u * t == 1 as real,
            u > 0 as real,
            -bound <= t * off <= bound,
    {
        assert(u * (t * off) == (u * t) * off);
    }
    assert(w / one - num / d == off / d) by (nonlinear_arith)
        requires
            off == w * den - num,
            d == den * one,
            den > 0 as real,
            one > 0 as real,
            d > 0 as real,
    {
        assert(w / one == (w * den) / d);
    }
    assert(-((u * bound) / d) <= off / d <= (u * bound) / d) by (nonlinear_arith)
        requires
            -(u * bound) <= off <= u * bound,
            d > 0 as real,
    ;
    assert((u * bound) / d == u * (num / d) + u * (extra / d)) by (nonlinear_arith)
        requires
            bound == num + extra,
            d > 0 as real,
    ;
}

/// A product of doubles lies near the product of their values.
pub proof fn lemma_product_error(a: Double, b: Double)
    requires
        a.finite(),
        b.finite(),
        a.product(b).finite(),
    ensures
        within(
            a.product(b).value(),
            a.value() * b.value(),
            roundoff() * size_of(a.value() * b.value()) + half_unit(),
        ),
{
    lemma_small();
    lemma_value(a);
    lemma_value(b);
    let one: real = crate::double::one_units() as real;
    let x: real = a.abs_units() as real;
    let y: real = b.abs_units() as real;
    let num: nat = a.abs_units() * b.abs_units();
    let bits: nat = crate::double::nearest_bits(num, crate::double::one_units());
    let negative: bool = a.negative() != b.negative();
    assert(bits < INFINITY_BITS) by {
        if bits >= INFINITY_BITS {
            assert(Double::signed(negative, bits).magnitude() == bits);
        }
    }
    lemma_nearest_error(num, crate::double::one_units());
    lemma_signed_value(negative, bits);
    let w: real = crate::double::magnitude_units(bits) as real;
    let n: real = num as real;
    lemma_cast_product(a.abs_units() as int, b.abs_units() as int);
    assert(n == x * y);
    let extra: real = (TWO_52 as real) * one;
    assert(n >= 0 as real);
    assert(-(n + extra) <= (TWO_53 as real) * (w * one - n) <= n + extra) by {
        let off: int = crate::double::magnitude_units(bits) * crate::double::one_units() - num;
        lemma_cast_product(
            crate::double::magnitude_units(bits) as int,
            crate::double::one_units() as int,
        );
        lemma_cast_product(TWO_53 as int, off);
        lemma_cast_product(TWO_52 as int, crate::double::one_units() as int);
    }
    lemma_scaled_error(w, n, one, one, extra);
    assert(n / (one * one) == (x / one) * (y / one)) by (nonlinear_arith)
        requires
            n == x * y,
            one > 0 as real,
    ;
    assert(extra / (one * one) == (TWO_52 as real) / one) by (nonlinear_arith)
        requires
            extra == (TWO_52 as real) * one,
            one > 0 as real,
    ;
    let p: real = x / one;
    let q: real = y / one;
    assert(p * q >= 0 as real) by (nonlinear_arith)
        requires
            p >= 0 as real,
            q >= 0 as real,
    ;
    assert((-p) * q == -(p * q) && p * (-q) == -(p * q) && (-p) * (-q) == p * q) by (
        nonlinear_arith);
}

/// A quotient of doubles lies near the quotient of their values.
pub proof fn lemma_quotient_error(a: Double, b: Double)
    requires
        a.finite(),
        b.finite(),
        b.value() != 0 as real,
        a.quotient(b).finite(),
    ensures
        within(
            a.quotient(b).value(),
            a.value() / b.value(),
            roundoff() * size_of(a.value() / b.value()) + half_unit(),
        ),
{
    lemma_small();
    lemma_value(a);
    lemma_value(b);
    let one: real = crate::double::one_units() as real;
    let x: real = a.abs_units() as real;
    let y: real = b.abs_units() as real;
    if b.zero() {
        crate::double::rounding::lemma_powers();
        assert(b.units() == 0);
        assert(0 as real / one == 0 as real) by (nonlinear_arith)
            requires
                one > 0 as real,
        ;
    }
    assert(y > 0 as real) by {
        crate::double::rounding::lemma_powers();
        crate::double::rounding::lemma_units_monotone(0, b.magnitude());
    }
    let num: nat = a.abs_units() * crate::double::one_units();
    let bits: nat = crate::double::nearest_bits(num, b.abs_units());
    let negative: bool = a.negative() != b.negative();
    assert(bits < INFINITY_BITS) by {
        if bits >= INFINITY_BITS {
            assert(Double::signed(negative, bits).magnitude() == bits);
        }
    }
    lemma_nearest_error(num, b.abs_units());
    lemma_signed_value(negative, bits);
    let w: real = crate::double::magnitude_units(bits) as real;
    let n: real = num as real;
    lemma_cast_product(a.abs_units() as int, crate::double::one_units() as int);
    assert(n == x * one);
    let extra: real = (TWO_52 as real) * y;
    assert(n >= 0 as real);
    assert(-(n + extra) <= (TWO_53 as real) * (w * y - n) <= n + extra) by {
        let off: int = crate::double::magnitude_units(bits) * b.abs_units() - num;
        lemma_cast_product(crate::double::magnitude_units(bits) as int, b.abs_units() as int);
        lemma_cast_product(TWO_53 as int, off);
        lemma_cast_product(TWO_52 as int, b.abs_units() as int);
    }
    lemma_scaled_error(w, n, y, one, extra);
    let p: real = x / one;
    let q: real = y / one;
    assert(q > 0 as real) by (nonlinear_arith)
        requires
            q == y / one,
            y > 0 as real,
            one > 0 as real,
    ;
    assert(n / (y * one) == p / q) by (nonlinear_arith)
        requires
            n == x * one,
            p == x / one,
            q == y / one,
            y > 0 as real,
            one > 0 as real,
            q > 0 as real,
    {
        assert(x == p * one);
        assert(y == q * one);
        assert(n / (y * one) == x / y);
        assert((p / q) * y == x);
    }
    assert(extra / (y * one) == (TWO_52 as real) / one) by (nonlinear_arith)
        requires
            extra == (TWO_52 as real) * y,
            y > 0 as real,
            one > 0 as real,
    ;
    assert(p / q >= 0 as real) by (nonlinear_arith)
        requires
            p >= 0 as real,
            q > 0 as real,
    ;
    assert((-p) / q == -(p / q) && p / (-q) == -(p / q) && (-p) / (-q) == p / q) by (
        nonlinear_arith)
        requires
            q > 0 as real,
    ;
}

proof fn lemma_mul_zero(x: real)
    ensures
        x * (0 as real) == 0 as real,
{
    assert(x * (0 as real) == 0 as real) by (nonlinear_arith);
}

/// A sum of doubles lies near the sum of their values.
pub proof fn lemma_sum_error(a: Double, b: Double)
    requires
        a.finite(),
        b.finite(),
        a.sum(b).finite(),
    ensures
        within(
            a.sum(b).value(),
            a.value() + b.value(),
            roundoff() * size_of(a.value() + b.value()),
        ),
{
    lemma_small();
    let one: real = crate::double::one_units() as real;
    let total: int = a.units() + b.units();
    let num: nat = if total < 0 {
        (-total) as nat
    } else {
        total as nat
    };
    let v: real = total as real;
    assert(a.value() + b.value() == v / one) by (nonlinear_arith)
        requires
            a.value() == a.units() as real / one,
            b.value() == b.units() as real / one,
            v == a.units() as real + b.units() as real,
            one > 0 as real,
    ;
    let bits: nat = crate::double::nearest_bits(num, 1);
    if total == 0 {
        let z: Double = Double::signed(a.negative() && b.negative(), 0);
        lemma_signed_value(a.negative() && b.negative(), 0);
        crate::double::rounding::lemma_powers();
        assert(crate::double::magnitude_units(0) == 0);
        assert(0 as real / one == 0 as real) by (nonlinear_arith)
            requires
                one > 0 as real,
        ;
        assert(a.sum(b) == z);
        assert(z.value() == 0 as real);
        assert(v == 0 as real);
        lemma_mul_zero(roundoff());
    } else {
        let negative: bool = total < 0;
        assert(bits < INFINITY_BITS) by {
            if bits >= INFINITY_BITS {
                assert(Double::signed(negative, bits).magnitude() == bits);
            }
        }
        lemma_nearest_error(num, 1);
        lemma_signed_value(negative, bits);
        let w: real = crate::double::magnitude_units(bits) as real;
        let n: real = num as real;
        assert(-(n + 0 as real) <= (TWO_53 as real) * (w * (1 as real) - n) <= n + 0 as real) by {
            let off: int = crate::double::magnitude_units(bits) - num;
            lemma_cast_product(TWO_53 as int, off);
        }
        lemma_scaled_error(w, n, 1 as real, one, 0 as real);
        assert(0 as real / (1 as real * one) == 0 as real) by (nonlinear_arith)
            requires
                one > 0 as real,
        ;
        assert(n / one >= 0 as real) by (nonlinear_arith)
            requires
                n >= 0 as real,
                one > 0 as real,
        ;
        assert((-n) / one == -(n / one)) by (nonlinear_arith)
            requires
                one > 0 as real,
        ;
    }
}

/// The opposite of a double has the opposite value.
pub proof fn lemma_opposite_value(a: Double)
    requires
        a.finite(),
    ensures
        a.opposite().finite(),
        a.opposite().value() == -a.value(),
{
    lemma_value(a);
    lemma_value(a.opposite());
    assert(a.opposite().magnitude() == a.magnitude());
    assert(a.opposite().negative() == !a.negative());
}

/// A difference of doubles lies near the difference of their values.
pub proof fn lemma_difference_error(a: Double, b: Double)
    requires
        a.finite(),
        b.finite(),
        a.difference(b).finite(),
    ensures
        within(
            a.difference(b).value(),
            a.value() - b.value(),
            roundoff() * size_of(a.value() - b.value()),
        ),
{
    lemma_opposite_value(b);
    lemma_sum_error(a, b.opposite());
}

/// The rules of multiplication that the estimates are made with.
pub proof fn lemma_mul(a: real, b: real, c: real)
    ensures
        a * b == b * a,
        a * (b * c) == (a * b) * c,
        a * (b + c) == a * b + a * c,
        a * (b - c) == a * b - a * c,
{
    assert(a * b == b * a) by (nonlinear_arith);
    assert(a * (b * c) == (a * b) * c) by (nonlinear_arith);
    assert(a * (b + c) == a * b + a * c) by (nonlinear_arith);
    assert(a * (b - c) == a * b - a * c) by (nonlinear_arith);
}

/// A product with a number that is not below zero keeps an order.
pub proof fn lemma_mul_order(a: real, b: real, c: real)
    requires
        a <= b,
        c >= 0 as real,
    ensures
        c * a <= c * b,
{
    assert(c * a <= c * b) by (nonlinear_arith)
        requires
            a <= b,
            c >= 0 as real,
    ;
}

/// The absolute value of a product is the product of the absolute values.
pub proof fn lemma_mul_size(a: real, b: real)
    ensures
        size_of(a * b) == size_of(a) * size_of(b),
        size_of(a) >= 0 as real,
{
    assert((-a) * b == -(a * b) && a * (-b) == -(a * b) && (-a) * (-b) == a * b) by (
        nonlinear_arith);
    assert(a >= 0 as real && b >= 0 as real ==> a * b >= 0 as real) by (nonlinear_arith);
    assert(a <= 0 as real && b >= 0 as real ==> a * b <= 0 as real) by (nonlinear_arith);
    assert(a >= 0 as real && b <= 0 as real ==> a * b <= 0 as real) by (nonlinear_arith);
    assert(a <= 0 as real && b <= 0 as real ==> a * b >= 0 as real) by (nonlinear_arith);
}

/// What a quotient is: times its divisor it gives what was divided.
pub proof fn lemma_divided(a: real, b: real)
    requires
        b > 0 as real,
    ensures
        b * (a / b) == a,
{
    assert(b * (a / b) == a) by (nonlinear_arith)
        requires
            b > 0 as real,
    ;
}

} // verus!
