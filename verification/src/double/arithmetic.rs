//! Executable arithmetic on doubles.
use vstd::arithmetic::div_mod::*;
use vstd::arithmetic::mul::*;
use vstd::arithmetic::power2::*;
use vstd::prelude::*;

use crate::double::scaling::{power_of_two, round_ratio};
use crate::double::{
    Double, INFINITY_BITS, NAN_BITS, SIGN_BIT, TWO_52, TWO_53, UNIT_EXPONENT,
};

verus! {

/// A significand and an exponent: the number of units is `significand * 2^exponent`.
pub struct Parts {
    pub significand: u64,
    pub exponent: u32,
}

impl Parts {
    /// The parts are those of a magnitude.
    pub open spec fn of(self, magnitude: nat) -> bool {
        &&& crate::double::magnitude_units(magnitude) == self.significand * pow2(
            self.exponent as nat,
        )
        &&& magnitude == self.significand + self.exponent * TWO_52
        &&& self.significand < TWO_53
        &&& self.exponent <= 2045
        &&& self.exponent > 0 ==> self.significand >= TWO_52
    }

    /// The magnitude in units of the smallest number.
    pub open spec fn units(self) -> nat {
        (self.significand * pow2(self.exponent as nat)) as nat
    }
}

/// A fraction with a power of two on both sides keeps its nearest double when the power is
/// cancelled.
proof fn lemma_cancel_power(n: nat, d: nat, s: nat, t: nat)
    requires
        d > 0,
    ensures
        crate::double::nearest_bits(n * pow2(s), d * pow2(t)) == crate::double::nearest_bits(
            n * crate::double::scaling::up(s - t),
            d * crate::double::scaling::up(t - s),
        ),
{
    let k: nat = crate::double::scaling::lemma_common_factor(n, d, s as int, t);
    crate::double::rounding::lemma_powers();
    lemma_mul_basics(d as int);
    if t - s > 0 {
        lemma_pow2_pos((t - s) as nat);
    }
    let u: nat = crate::double::scaling::up(t - s);
    assert(d * u > 0) by (nonlinear_arith)
        requires
            d > 0,
            u > 0,
    ;
    if s == 0 {
        assert(pow2(s) == 1);
    }
    assert(crate::double::scaling::up(s as int) == pow2(s));
    assert(d * crate::double::scaling::up(-(s as int)) == d);
    crate::double::rounding::lemma_nearest_scaled(
        n * crate::double::scaling::up(s - t),
        d * u,
        k,
    );
}

impl Double {
    /// Whether the sign is negative.
    pub fn is_negative(self) -> (negative: bool)
        ensures
            negative == self.negative(),
    {
        self.bits >= SIGN_BIT
    }

    /// The bit pattern without its sign.
    fn unsigned_bits(self) -> (bits: u64)
        ensures
            bits == self.magnitude(),
    {
        if self.bits >= SIGN_BIT {
            self.bits - SIGN_BIT
        } else {
            self.bits
        }
    }

    /// Whether it is not a number.
    pub fn is_not_a_number(self) -> (nan: bool)
        ensures
            nan == self.is_nan(),
    {
        self.unsigned_bits() > INFINITY_BITS
    }

    /// Whether it is neither infinite nor "not a number".
    pub fn is_finite(self) -> (finite: bool)
        ensures
            finite == self.finite(),
    {
        self.unsigned_bits() < INFINITY_BITS
    }

    fn is_infinite(self) -> (infinite: bool)
        ensures
            infinite == self.infinite(),
    {
        self.unsigned_bits() == INFINITY_BITS
    }

    fn is_zero(self) -> (zero: bool)
        ensures
            zero == self.zero(),
    {
        self.unsigned_bits() == 0
    }

    /// Whether this is a finite number greater than zero.
    pub fn is_positive(self) -> (positive: bool)
        ensures
            positive == self.positive(),
    {
        0 < self.bits && self.bits < INFINITY_BITS
    }

    /// A magnitude with a sign.
    pub fn with_sign(negative: bool, magnitude: u64) -> (number: Double)
        requires
            magnitude < SIGN_BIT,
        ensures
            number == Double::signed(negative, magnitude as nat),
    {
        if negative {
            Double { bits: magnitude + SIGN_BIT }
        } else {
            Double { bits: magnitude }
        }
    }

    /// The significand and the exponent.
    pub fn parts(self) -> (parts: Parts)
        requires
            self.finite(),
        ensures
            parts.of(self.magnitude()),
            parts.units() == self.abs_units(),
    {
        let bits: u64 = self.unsigned_bits();
        let exponent: u64 = bits / TWO_52;
        let fraction: u64 = bits % TWO_52;
        proof {
            crate::double::rounding::lemma_powers();
            lemma_mul_basics(fraction as int);
        }
        if exponent == 0 {
            Parts { significand: fraction, exponent: 0 }
        } else {
            Parts { significand: TWO_52 + fraction, exponent: (exponent - 1) as u32 }
        }
    }

    /// The number without its sign.
    pub fn abs(self) -> (number: Double)
        ensures
            number == self.absolute(),
    {
        Double::with_sign(false, self.unsigned_bits())
    }

    /// The number with the other sign.
    pub fn negated(self) -> (number: Double)
        ensures
            number == self.opposite(),
    {
        let negative: bool = !self.is_negative();
        Double::with_sign(negative, self.unsigned_bits())
    }

    /// The product, rounded to the nearest.
    pub fn times(self, other: Double) -> (number: Double)
        ensures
            number == self.product(other),
    {
        let negative: bool = self.is_negative() != other.is_negative();
        if self.is_not_a_number() || other.is_not_a_number() {
            return Double { bits: NAN_BITS };
        }
        if self.is_infinite() || other.is_infinite() {
            if self.is_zero() || other.is_zero() {
                return Double { bits: NAN_BITS };
            }
            return Double::with_sign(negative, INFINITY_BITS);
        }
        let a: Parts = self.parts();
        let b: Parts = other.parts();
        proof {
            assert(a.significand * b.significand < TWO_53 * TWO_53) by (nonlinear_arith)
                requires
                    a.significand < TWO_53,
                    b.significand < TWO_53,
            ;
        }
        let n: u128 = (a.significand as u128) * (b.significand as u128);
        let s: i32 = (a.exponent as i32) + (b.exponent as i32) - (UNIT_EXPONENT as i32);
        let bits: u64 = round_ratio(n, 1, s);
        proof {
            let w: nat = (a.exponent + b.exponent) as nat;
            lemma_pow2_adds(a.exponent as nat, b.exponent as nat);
            assert(a.units() * b.units() == n * (pow2(a.exponent as nat) * pow2(
                b.exponent as nat,
            ))) by (nonlinear_arith)
                requires
                    a.units() == a.significand * pow2(a.exponent as nat),
                    b.units() == b.significand * pow2(b.exponent as nat),
                    n == a.significand * b.significand,
            ;
            lemma_mul_basics(pow2(1074) as int);
            lemma_cancel_power(n as nat, 1, w, 1074);
        }
        Double::with_sign(negative, bits)
    }

    /// The quotient, rounded to the nearest.
    pub fn over(self, other: Double) -> (number: Double)
        ensures
            number == self.quotient(other),
    {
        let negative: bool = self.is_negative() != other.is_negative();
        if self.is_not_a_number() || other.is_not_a_number() {
            return Double { bits: NAN_BITS };
        }
        if self.is_infinite() {
            if other.is_infinite() {
                return Double { bits: NAN_BITS };
            }
            return Double::with_sign(negative, INFINITY_BITS);
        }
        if other.is_infinite() {
            return Double::with_sign(negative, 0);
        }
        if other.is_zero() {
            if self.is_zero() {
                return Double { bits: NAN_BITS };
            }
            return Double::with_sign(negative, INFINITY_BITS);
        }
        let a: Parts = self.parts();
        let b: Parts = other.parts();
        proof {
            crate::double::rounding::lemma_powers();
        }
        let s: i32 = (a.exponent as i32) + (UNIT_EXPONENT as i32) - (b.exponent as i32);
        let bits: u64 = round_ratio(a.significand as u128, b.significand, s);
        proof {
            lemma_pow2_adds(a.exponent as nat, 1074);
            assert(a.units() * pow2(1074) == a.significand * (pow2(a.exponent as nat) * pow2(1074)))
                by (nonlinear_arith)
                requires
                    a.units() == a.significand * pow2(a.exponent as nat),
            ;
            lemma_cancel_power(
                a.significand as nat,
                b.significand as nat,
                (a.exponent + 1074) as nat,
                b.exponent as nat,
            );
        }
        Double::with_sign(negative, bits)
    }
}

/// An integer strictly within one half of the quotient is what rounding gives.
proof fn lemma_round_unique(num: nat, den: nat, r: nat)
    requires
        den > 0,
        (2 * r - 1) * den < 2 * num,
        2 * num < (2 * r + 1) * den,
    ensures
        crate::double::round_half_even(num, den) == r,
{
    crate::double::rounding::lemma_round_half_even_error(num, den);
    let q: int = crate::double::round_half_even(num, den) as int;
    if q > r {
        assert((2 * r + 1) * den <= (2 * q - 1) * den) by (nonlinear_arith)
            requires
                q >= r + 1,
                den > 0,
        ;
    }
    if q < r {
        assert((2 * q + 1) * den <= (2 * r - 1) * den) by (nonlinear_arith)
            requires
                q + 1 <= r,
                den > 0,
        ;
    }
}

/// A change far below the last digit of a number is lost in rounding.
proof fn lemma_absorbed(parts: Parts, magnitude: nat, change: int)
    requires
        parts.of(magnitude),
        parts.exponent >= 2,
        -(pow2((parts.exponent - 2) as nat) as int) < change < pow2((parts.exponent - 2) as nat),
    ensures
        parts.units() + change > 0,
        crate::double::nearest_bits((parts.units() + change) as nat, 1) == magnitude,
{
    let m: int = parts.significand as int;
    let e: nat = parts.exponent as nat;
    let p: int = pow2(e) as int;
    let quarter: int = pow2((e - 2) as nat) as int;
    crate::double::rounding::lemma_powers();
    lemma_pow2_unfold(e);
    lemma_pow2_unfold((e - 1) as nat);
    lemma_pow2_pos((e - 2) as nat);
    assert(p == 4 * quarter);
    let n: int = m * p + change;
    lemma_pow2_adds(52, e);
    lemma_pow2_adds(53, e);
    assert(m * p + p <= TWO_53 * p) by (nonlinear_arith)
        requires
            m + 1 <= TWO_53,
            p > 0,
    ;
    assert(m * p >= TWO_52 * p) by (nonlinear_arith)
        requires
            m >= TWO_52,
            p > 0,
    ;
    assert(pow2(52) * p == TWO_52 * p);
    assert(pow2(53) * p == TWO_53 * p);
    assert(n > 0) by (nonlinear_arith)
        requires
            n == m * p + change,
            m * p >= TWO_52 * p,
            TWO_52 >= 1,
            p == 4 * quarter,
            quarter > 0,
            change > -quarter,
    ;
    if n >= TWO_52 * p {
        crate::double::rounding::lemma_excess_unique(n as nat, 1, e);
        assert((2 * m - 1) * p == 2 * (m * p) - p) by (nonlinear_arith);
        assert((2 * m + 1) * p == 2 * (m * p) + p) by (nonlinear_arith);
        lemma_round_unique(n as nat, p as nat, m as nat);
        lemma_mul_basics(p);
    } else {
        // The number was a power of two and fell into the range of the exponent below.
        let h: int = 2 * quarter;
        assert(h == pow2((e - 1) as nat));
        assert(m == TWO_52) by (nonlinear_arith)
            requires
                m * p + change < TWO_52 * p,
                m >= TWO_52,
                change > -quarter,
                p == 4 * quarter,
                quarter > 0,
        ;
        lemma_pow2_adds(53, (e - 1) as nat);
        lemma_pow2_adds(52, (e - 1) as nat);
        assert(53 + (e - 1) == 52 + e);
        assert(pow2(52) * h <= n) by (nonlinear_arith)
            requires
                n == m * p + change,
                m == TWO_52,
                pow2(52) == TWO_52,
                p == 2 * h,
                h == 2 * quarter,
                quarter > 0,
                change > -quarter,
        ;
        crate::double::rounding::lemma_excess_unique(n as nat, 1, (e - 1) as nat);
        let w: int = TWO_53 as int;
        assert(w * h == m * p) by (nonlinear_arith)
            requires
                w == 2 * m,
                p == 2 * h,
        ;
        assert((2 * w - 1) * h == 2 * (w * h) - h) by (nonlinear_arith);
        assert((2 * w + 1) * h == 2 * (w * h) + h) by (nonlinear_arith);
        lemma_round_unique(n as nat, h as nat, w as nat);
        lemma_mul_basics(h);
        assert(w + (e - 1) * TWO_52 == m + e * TWO_52) by (nonlinear_arith)
            requires
                w == 2 * m,
                m == TWO_52,
        ;
    }
}

proof fn lemma_signed_units(number: Double, parts: Parts)
    requires
        parts.units() == number.abs_units(),
    ensures
        number.negative() ==> number.units() == -parts.units(),
        !number.negative() ==> number.units() == parts.units(),
{
}

/// The sum of two finite numbers, the first with the larger exponent.
fn sum_of_parts(a_negative: bool, a: Parts, b_negative: bool, b: Parts) -> (number: Double)
    requires
        exists|magnitude: nat| a.of(magnitude),
        exists|magnitude: nat| b.of(magnitude),
        a.exponent >= b.exponent,
    ensures
        ({
            let x: int = if a_negative { -(a.units() as int) } else { a.units() as int };
            let y: int = if b_negative { -(b.units() as int) } else { b.units() as int };
            number == crate::double::from_units(x + y, a_negative && b_negative)
        }),
{
    let ghost am: nat = choose|magnitude: nat| a.of(magnitude);
    let ghost bm: nat = choose|magnitude: nat| b.of(magnitude);
    let ghost x: int = if a_negative { -(a.units() as int) } else { a.units() as int };
    let ghost y: int = if b_negative { -(b.units() as int) } else { b.units() as int };
    let gap: u32 = a.exponent - b.exponent;
    proof {
        crate::double::rounding::lemma_powers();
        lemma_pow2_pos(b.exponent as nat);
    }
    if gap > 64 {
        proof {
            let p: int = pow2(b.exponent as nat) as int;
            lemma_pow2_adds(53, b.exponent as nat);
            assert(b.significand * p < pow2(53) * p) by (nonlinear_arith)
                requires
                    b.significand < pow2(53),
                    p > 0,
            ;
            lemma_pow2_strictly_increases((53 + b.exponent) as nat, (a.exponent - 2) as nat);
            assert(b.units() < pow2((a.exponent - 2) as nat));
            assert(b.units() >= 0);
            if a_negative == b_negative {
                lemma_absorbed(a, am, b.units() as int);
            } else {
                lemma_absorbed(a, am, -(b.units() as int));
            }
        }
        let bits: u64 = a.significand + (a.exponent as u64) * TWO_52;
        return Double::with_sign(a_negative, bits);
    }
    let factor: u128 = power_of_two(gap);
    proof {
        lemma_pow2_strictly_increases(gap as nat, 65);
        lemma_pow2_adds(1, 64);
        lemma2_to64();
        assert(a.significand * factor < TWO_53 * pow2(65)) by (nonlinear_arith)
            requires
                a.significand < TWO_53,
                factor < pow2(65),
        ;
        lemma_pow2_adds(gap as nat, b.exponent as nat);
    }
    let high: u128 = (a.significand as u128) * factor;
    let low: u128 = b.significand as u128;
    let ghost p: int = pow2(b.exponent as nat) as int;
    proof {
        assert(a.units() == high * p) by (nonlinear_arith)
            requires
                a.units() == a.significand * (factor * p),
                high == a.significand * factor,
        ;
        assert(b.units() == low * p);
        lemma_mul_is_distributive_add_other_way(p, high as int, low as int);
        lemma_mul_is_distributive_sub_other_way(p, high as int, low as int);
        lemma_mul_is_distributive_sub_other_way(p, low as int, high as int);
    }
    let total: u128;
    let negative: bool;
    if a_negative == b_negative {
        total = high + low;
        negative = a_negative;
    } else if high >= low {
        total = high - low;
        negative = a_negative;
    } else {
        total = low - high;
        negative = b_negative;
    }
    assert(total * p == x + y || total * p == -(x + y));
    if total == 0 {
        proof {
            lemma_mul_basics(p);
        }
        return Double::with_sign(a_negative && b_negative, 0);
    }
    let bits: u64 = round_ratio(total, 1, b.exponent as i32);
    proof {
        lemma_mul_strictly_positive(total as int, p);
        lemma_mul_basics(total as int);
        assert(crate::double::scaling::up(b.exponent as int) == p);
        assert(negative == (x + y < 0));
    }
    Double::with_sign(negative, bits)
}

impl Double {
    /// The sum, rounded to the nearest.
    pub fn plus(self, other: Double) -> (number: Double)
        ensures
            number == self.sum(other),
    {
        if self.is_not_a_number() || other.is_not_a_number() {
            return Double { bits: NAN_BITS };
        }
        if self.is_infinite() {
            if other.is_infinite() && self.is_negative() != other.is_negative() {
                return Double { bits: NAN_BITS };
            }
            return self;
        }
        if other.is_infinite() {
            return other;
        }
        let a: Parts = self.parts();
        let b: Parts = other.parts();
        proof {
            lemma_signed_units(self, a);
            lemma_signed_units(other, b);
        }
        if a.exponent >= b.exponent {
            sum_of_parts(self.is_negative(), a, other.is_negative(), b)
        } else {
            sum_of_parts(other.is_negative(), b, self.is_negative(), a)
        }
    }

    /// The difference, rounded to the nearest.
    pub fn minus(self, other: Double) -> (number: Double)
        ensures
            number == self.difference(other),
    {
        self.plus(other.negated())
    }

    /// An integer in the order of the numbers.
    fn rank(self) -> (rank: i64)
        requires
            !self.is_nan(),
        ensures
            rank == if self.negative() { -(self.magnitude() as int) } else {
                self.magnitude() as int
            },
    {
        let bits: i64 = self.unsigned_bits() as i64;
        if self.is_negative() {
            -bits
        } else {
            bits
        }
    }

    /// Whether it is less than another.
    pub fn is_less(self, other: Double) -> (less: bool)
        ensures
            less == self.less(other),
    {
        if self.is_not_a_number() || other.is_not_a_number() {
            return false;
        }
        proof {
            lemma_rank_order(self, other);
        }
        self.rank() < other.rank()
    }

    /// Whether it is less than another or equal to it.
    pub fn is_at_most(self, other: Double) -> (at_most: bool)
        ensures
            at_most == self.at_most(other),
    {
        if self.is_not_a_number() || other.is_not_a_number() {
            return false;
        }
        proof {
            lemma_rank_order(other, self);
        }
        self.rank() <= other.rank()
    }

    /// The greater of two, where both are numbers.
    pub fn max(self, other: Double) -> (number: Double)
        ensures
            number == self.larger(other),
    {
        if self.is_not_a_number() {
            other
        } else if other.is_not_a_number() || !self.is_less(other) {
            self
        } else {
            other
        }
    }
}

/// The order of signed bit patterns is the order of the numbers.
proof fn lemma_rank_order(a: Double, b: Double)
    requires
        !a.is_nan(),
        !b.is_nan(),
    ensures
        ({
            let x: int = if a.negative() { -(a.magnitude() as int) } else { a.magnitude() as int };
            let y: int = if b.negative() { -(b.magnitude() as int) } else { b.magnitude() as int };
            (x < y) == (a.units() < b.units())
        }),
{
    let m: nat = a.magnitude();
    let n: nat = b.magnitude();
    crate::double::rounding::lemma_powers();
    assert(crate::double::magnitude_units(0) == 0);
    if m < n {
        crate::double::rounding::lemma_units_monotone(m, n);
    }
    if n < m {
        crate::double::rounding::lemma_units_monotone(n, m);
    }
    if 0 < m {
        crate::double::rounding::lemma_units_monotone(0, m);
    }
    if 0 < n {
        crate::double::rounding::lemma_units_monotone(0, n);
    }
}

} // verus!
