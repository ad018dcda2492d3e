//! Whole numbers: rounding to them and conversions from and to machine integers.
use vstd::arithmetic::div_mod::*;
use vstd::arithmetic::mul::*;
use vstd::arithmetic::power2::*;
use vstd::prelude::*;

use crate::double::arithmetic::Parts;
use crate::double::scaling::{power_of_two, round_ratio};
use crate::double::{Double, TWO_53, UNIT_EXPONENT};

verus! {

/// The whole part of a number below 2^53 with what its fraction is.
struct Split {
    whole: u64,
    has_fraction: bool,
    at_least_half: bool,
}

/// Splits `significand * 2^exponent` units into ones and a fraction.
fn split(parts: Parts) -> (result: Split)
    requires
        parts.significand < TWO_53,
        parts.exponent < UNIT_EXPONENT,
    ensures
        result.whole < TWO_53,
        result.whole == parts.units() / crate::double::one_units(),
        result.has_fraction == (parts.units() % crate::double::one_units() != 0),
        result.at_least_half == (2 * (parts.units() % crate::double::one_units())
            >= crate::double::one_units()),
{
    let shift: u32 = UNIT_EXPONENT - parts.exponent;
    let ghost one: int = crate::double::one_units() as int;
    let ghost p: int = pow2(parts.exponent as nat) as int;
    proof {
        crate::double::rounding::lemma_powers();
        lemma_pow2_pos(parts.exponent as nat);
        lemma_pow2_pos(1074);
        lemma_pow2_adds(shift as nat, parts.exponent as nat);
    }
    if shift >= 64 {
        proof {
            lemma_pow2_strictly_increases(54, shift as nat);
            lemma_pow2_unfold(54);
            let m: int = parts.significand as int;
            assert(2 * (m * p) < pow2(shift as nat) * p) by (nonlinear_arith)
                requires
                    2 * m < pow2(shift as nat),
                    p > 0,
            ;
            assert(m * p >= 0) by (nonlinear_arith)
                requires
                    m >= 0,
                    p > 0,
            ;
            lemma_fundamental_div_mod_converse(m * p, one, 0, m * p);
            assert((m * p == 0) == (m == 0)) by (nonlinear_arith)
                requires
                    p > 0,
            ;
        }
        return Split { whole: 0, has_fraction: parts.significand != 0, at_least_half: false };
    }
    let divisor: u128 = power_of_two(shift);
    proof {
        lemma_pow2_strictly_increases(shift as nat, 64);
        lemma2_to64();
        lemma_pow2_pos(shift as nat);
    }
    let d: u64 = divisor as u64;
    let whole: u64 = parts.significand / d;
    let rest: u64 = parts.significand % d;
    proof {
        let m: int = parts.significand as int;
        lemma_fundamental_div_mod(m, d as int);
        lemma_mod_bound(m, d as int);
        let q: int = whole as int;
        let r: int = rest as int;
        assert(m * p == q * (d * p) + r * p) by (nonlinear_arith)
            requires
                m == d * q + r,
        ;
        assert(0 <= r * p < d * p) by (nonlinear_arith)
            requires
                0 <= r < d,
                p > 0,
        ;
        lemma_fundamental_div_mod_converse(m * p, one, q, r * p);
        assert((r * p == 0) == (r == 0)) by (nonlinear_arith)
            requires
                p > 0,
        ;
        assert((2 * (r * p) >= d * p) == (2 * r >= d)) by (nonlinear_arith)
            requires
                p > 0,
        ;
        lemma_div_is_ordered_by_denominator(m, 1, d as int);
        lemma_div_basics(m);
    }
    Split { whole, has_fraction: rest != 0, at_least_half: rest >= d - rest }
}

/// A number with a large exponent is whole.
proof fn lemma_large_is_whole(parts: Parts, magnitude: nat)
    requires
        parts.of(magnitude),
        parts.exponent >= 1074,
    ensures
        parts.units() % crate::double::one_units() == 0,
        parts.units() == (parts.units() / crate::double::one_units()) * crate::double::one_units(),
        parts.units() / crate::double::one_units() == parts.significand * pow2(
            (parts.exponent - 1074) as nat,
        ),
        crate::double::nearest_bits(parts.units(), 1) == magnitude,
{
    let k: nat = (parts.exponent - 1074) as nat;
    let one: int = crate::double::one_units() as int;
    lemma_pow2_pos(1074);
    lemma_pow2_adds(k, 1074);
    let q: int = parts.significand * pow2(k);
    assert(parts.units() == q * one) by (nonlinear_arith)
        requires
            parts.units() == parts.significand * (pow2(k) * one),
            q == parts.significand * pow2(k),
    ;
    lemma_fundamental_div_mod_converse(parts.units() as int, one, q, 0);
    crate::double::rounding::lemma_nearest_exact(magnitude);
}

impl Double {
    /// The double nearest to a machine integer.
    pub fn from_integer(value: u128) -> (number: Double)
        ensures
            number == Double::whole(false, value as nat),
    {
        proof {
            crate::double::rounding::lemma_powers();
            lemma_mul_basics(1);
        }
        let bits: u64 = round_ratio(value, 1, UNIT_EXPONENT as i32);
        Double::with_sign(false, bits)
    }

    fn from_whole(negative: bool, value: u64) -> (number: Double)
        ensures
            number == Double::whole(negative, value as nat),
    {
        proof {
            crate::double::rounding::lemma_powers();
            lemma_mul_basics(1);
        }
        let bits: u64 = round_ratio(value as u128, 1, UNIT_EXPONENT as i32);
        Double::with_sign(negative, bits)
    }

    /// The greatest whole number that is not greater.
    pub fn floor(self) -> (number: Double)
        ensures
            number == self.rounded_down(),
    {
        if !self.is_finite() {
            return self;
        }
        let parts: Parts = self.parts();
        if parts.exponent >= UNIT_EXPONENT {
            proof {
                lemma_large_is_whole(parts, self.magnitude());
            }
            return self;
        }
        let split: Split = split(parts);
        if self.is_negative() {
            let whole: u64 = if split.has_fraction { split.whole + 1 } else { split.whole };
            Double::from_whole(true, whole)
        } else {
            Double::from_whole(false, split.whole)
        }
    }

    /// The least whole number that is not less.
    pub fn ceil(self) -> (number: Double)
        ensures
            number == self.rounded_up(),
    {
        if !self.is_finite() {
            return self;
        }
        let parts: Parts = self.parts();
        if parts.exponent >= UNIT_EXPONENT {
            proof {
                lemma_large_is_whole(parts, self.magnitude());
            }
            return self;
        }
        let split: Split = split(parts);
        if self.is_negative() {
            Double::from_whole(true, split.whole)
        } else {
            let whole: u64 = if split.has_fraction { split.whole + 1 } else { split.whole };
            Double::from_whole(false, whole)
        }
    }

    /// The whole part of a number that is not negative.
    pub fn floor_to_integer(self) -> (value: u128)
        requires
            self.finite(),
            crate::double::whole_down(self.abs_units()) <= u128::MAX,
        ensures
            value == crate::double::whole_down(self.abs_units()),
    {
        let parts: Parts = self.parts();
        if parts.exponent >= UNIT_EXPONENT {
            return large_to_integer(parts);
        }
        split(parts).whole as u128
    }

    /// The least integer that is not below this number.
    pub fn ceil_to_integer(self) -> (value: u128)
        requires
            self.finite(),
            crate::double::whole_up(self.abs_units()) <= u128::MAX,
        ensures
            value == crate::double::whole_up(self.abs_units()),
    {
        let parts: Parts = self.parts();
        if parts.exponent >= UNIT_EXPONENT {
            proof {
                lemma_large_is_whole(parts, self.magnitude());
            }
            return large_to_integer(parts);
        }
        let split: Split = split(parts);
        if split.has_fraction {
            (split.whole + 1) as u128
        } else {
            split.whole as u128
        }
    }

    /// The integer nearest to this number, halves rounded up.
    pub fn round_to_integer(self) -> (value: u128)
        requires
            self.finite(),
            crate::double::whole_nearest(self.abs_units()) <= u128::MAX,
        ensures
            value == crate::double::whole_nearest(self.abs_units()),
    {
        let parts: Parts = self.parts();
        if parts.exponent >= UNIT_EXPONENT {
            proof {
                lemma_large_is_whole(parts, self.magnitude());
                lemma_pow2_pos(1074);
            }
            return large_to_integer(parts);
        }
        let split: Split = split(parts);
        if split.at_least_half {
            (split.whole + 1) as u128
        } else {
            split.whole as u128
        }
    }
}

/// The integer that a number with a large exponent is.
fn large_to_integer(parts: Parts) -> (value: u128)
    requires
        exists|magnitude: nat| parts.of(magnitude),
        parts.exponent >= UNIT_EXPONENT,
        parts.units() / crate::double::one_units() <= u128::MAX,
    ensures
        value == parts.units() / crate::double::one_units(),
{
    let ghost magnitude: nat = choose|magnitude: nat| parts.of(magnitude);
    let shift: u32 = parts.exponent - UNIT_EXPONENT;
    proof {
        lemma_large_is_whole(parts, magnitude);
        crate::double::rounding::lemma_powers();
        if shift == 0 {
            lemma_mul_basics(parts.significand as int);
        } else {
            if shift >= 128 {
                if shift > 128 {
                    lemma_pow2_strictly_increases(128, shift as nat);
                }
                crate::double::scaling::lemma_pow2_128();
                assert(parts.significand * pow2(shift as nat) >= pow2(shift as nat))
                    by (nonlinear_arith)
                    requires
                        parts.significand >= 1,
                ;
            }
        }
    }
    let factor: u128 = power_of_two(shift);
    (parts.significand as u128) * factor
}

} // verus!
