//! IEEE 754 double-precision numbers as plain values.
//!
//! A [`Double`] is the bit pattern of a double. Its mathematical value is read in units of the
//! smallest positive double, 2^-1074, so that every finite double is an integer number of units
//! and the arithmetic below is specified as exact integer arithmetic followed by one rounding to
//! the nearest representable value, ties to even.
use vstd::arithmetic::power2::*;
use vstd::prelude::*;

pub mod rounding;
pub mod scaling;
pub mod arithmetic;
pub mod whole;
pub mod constants;
pub mod laws;
pub mod error;

verus! {

/// 2^52, the weight of the lowest exponent bit and the implicit leading bit of a normal number.
pub const TWO_52: u64 = 0x0010_0000_0000_0000;

/// 2^53, one more than the largest significand.
pub const TWO_53: u64 = 0x0020_0000_0000_0000;

/// The bit pattern of positive infinity.
pub const INFINITY_BITS: u64 = 0x7ff0_0000_0000_0000;

/// The sign bit.
pub const SIGN_BIT: u64 = 0x8000_0000_0000_0000;

/// The bit pattern that stands for "not a number" in results.
pub const NAN_BITS: u64 = 0x7ff8_0000_0000_0000;

/// One is 2^1074 units.
pub const UNIT_EXPONENT: u32 = 1074;

/// A double-precision number, held as its bit pattern.
#[derive(Clone, Copy, Debug, PartialEq, Eq, Structural)]
pub struct Double {
    pub bits: u64,
}

/// The number of units in one.
pub open spec fn one_units() -> nat {
    pow2(1074)
}

/// The integer nearest to `num / den`; of two equally near ones the even one.
pub open spec fn round_half_even(num: nat, den: nat) -> nat {
    let q: nat = num / den;
    let r: nat = num % den;
    if 2 * r < den || (2 * r == den && q % 2 == 0) {
        q
    } else {
        q + 1
    }
}

/// How many low binary digits of `num / den` lie beyond the 53 digits of a significand.
pub open spec fn excess_digits(num: nat, den: nat) -> nat
    recommends
        den > 0,
    decreases num - den,
{
    if den == 0 || num < den * TWO_53 {
        0
    } else {
        1 + excess_digits(num, 2 * den)
    }
}

/// The bit pattern of the double nearest to `num / den` units, ties to even, infinity where that
/// is out of range.
///
/// Adding the rounded significand to the shifted exponent carries into the exponent by itself
/// when rounding reaches the next power of two.
pub open spec fn nearest_bits(num: nat, den: nat) -> nat {
    let t: nat = excess_digits(num, den);
    let bits: nat = round_half_even(num, den * pow2(t)) + t * (TWO_52 as nat);
    if bits >= INFINITY_BITS {
        INFINITY_BITS as nat
    } else {
        bits
    }
}

impl Double {
    /// Whether the sign is negative.
    pub open spec fn negative(self) -> bool {
        self.bits >= SIGN_BIT
    }

    /// The bit pattern without its sign.
    pub open spec fn magnitude(self) -> nat {
        if self.negative() {
            (self.bits - SIGN_BIT) as nat
        } else {
            self.bits as nat
        }
    }

    /// Not a number.
    pub open spec fn is_nan(self) -> bool {
        self.magnitude() > INFINITY_BITS
    }

    /// One of the two infinities.
    pub open spec fn infinite(self) -> bool {
        self.magnitude() == INFINITY_BITS
    }

    /// Neither infinite nor "not a number".
    pub open spec fn finite(self) -> bool {
        self.magnitude() < INFINITY_BITS
    }

    /// Zero, of either sign.
    pub open spec fn zero(self) -> bool {
        self.magnitude() == 0
    }

    /// The absolute value in units of 2^-1074. Infinity counts as 2^1024, above every finite
    /// number.
    pub open spec fn abs_units(self) -> nat {
        magnitude_units(self.magnitude())
    }

    /// The value in units of 2^-1074.
    pub open spec fn units(self) -> int {
        if self.negative() {
            -(self.abs_units() as int)
        } else {
            self.abs_units() as int
        }
    }

    /// The double with the given sign and unsigned bit pattern.
    pub open spec fn signed(negative: bool, magnitude: nat) -> Double {
        Double { bits: (magnitude + if negative { SIGN_BIT as nat } else { 0 }) as u64 }
    }

    /// A finite number greater than zero.
    pub open spec fn positive(self) -> bool {
        0 < self.bits < INFINITY_BITS
    }
}

/// The double that stands for `units`, rounded to nearest; `negative_zero` gives the sign of zero.
pub open spec fn from_units(units: int, negative_zero: bool) -> Double {
    if units == 0 {
        Double::signed(negative_zero, 0)
    } else if units < 0 {
        Double::signed(true, nearest_bits((-units) as nat, 1))
    } else {
        Double::signed(false, nearest_bits(units as nat, 1))
    }
}

impl Double {
    /// What undefined operations give.
    pub open spec fn not_a_number() -> Double {
        Double { bits: NAN_BITS }
    }

    /// The number with the other sign.
    pub open spec fn opposite(self) -> Double {
        Double::signed(!self.negative(), self.magnitude())
    }

    /// The number without its sign.
    pub open spec fn absolute(self) -> Double {
        Double::signed(false, self.magnitude())
    }

    /// IEEE 754 addition.
    pub open spec fn sum(self, other: Double) -> Double {
        if self.is_nan() || other.is_nan() {
            Double::not_a_number()
        } else if self.infinite() {
            if other.infinite() && self.negative() != other.negative() {
                Double::not_a_number()
            } else {
                self
            }
        } else if other.infinite() {
            other
        } else {
            from_units(self.units() + other.units(), self.negative() && other.negative())
        }
    }

    /// IEEE 754 subtraction.
    pub open spec fn difference(self, other: Double) -> Double {
        self.sum(other.opposite())
    }

    /// IEEE 754 multiplication.
    pub open spec fn product(self, other: Double) -> Double {
        let negative: bool = self.negative() != other.negative();
        if self.is_nan() || other.is_nan() {
            Double::not_a_number()
        } else if self.infinite() || other.infinite() {
            if self.zero() || other.zero() {
                Double::not_a_number()
            } else {
                Double::signed(negative, INFINITY_BITS as nat)
            }
        } else {
            Double::signed(
                negative,
                nearest_bits(self.abs_units() * other.abs_units(), one_units()),
            )
        }
    }

    /// IEEE 754 division.
    pub open spec fn quotient(self, other: Double) -> Double {
        let negative: bool = self.negative() != other.negative();
        if self.is_nan() || other.is_nan() {
            Double::not_a_number()
        } else if self.infinite() {
            if other.infinite() {
                Double::not_a_number()
            } else {
                Double::signed(negative, INFINITY_BITS as nat)
            }
        } else if other.infinite() {
            Double::signed(negative, 0)
        } else if other.zero() {
            if self.zero() {
                Double::not_a_number()
            } else {
                Double::signed(negative, INFINITY_BITS as nat)
            }
        } else {
            Double::signed(
                negative,
                nearest_bits(self.abs_units() * one_units(), other.abs_units()),
            )
        }
    }

    /// The order of numbers; nothing is less than "not a number", nor it than anything.
    pub open spec fn less(self, other: Double) -> bool {
        !self.is_nan() && !other.is_nan() && self.units() < other.units()
    }

    /// Less or equal; false where one side is not a number.
    pub open spec fn at_most(self, other: Double) -> bool {
        !self.is_nan() && !other.is_nan() && self.units() <= other.units()
    }

    /// The larger number; a number wins over "not a number".
    pub open spec fn larger(self, other: Double) -> Double {
        if self.is_nan() {
            other
        } else if other.is_nan() || !self.less(other) {
            self
        } else {
            other
        }
    }

    /// The largest whole number that is not above this one.
    pub open spec fn rounded_down(self) -> Double {
        if !self.finite() {
            self
        } else if self.negative() {
            Double::whole(true, whole_up(self.abs_units()))
        } else {
            Double::whole(false, whole_down(self.abs_units()))
        }
    }

    /// The smallest whole number that is not below this one.
    pub open spec fn rounded_up(self) -> Double {
        if !self.finite() {
            self
        } else if self.negative() {
            Double::whole(true, whole_down(self.abs_units()))
        } else {
            Double::whole(false, whole_up(self.abs_units()))
        }
    }

    /// The double nearest to a whole number.
    pub open spec fn whole(negative: bool, value: nat) -> Double {
        Double::signed(negative, nearest_bits(value * one_units(), 1))
    }
}

/// The whole number of ones in `units`.
pub open spec fn whole_down(units: nat) -> nat {
    units / one_units()
}

/// The least whole number of ones that covers `units`.
pub open spec fn whole_up(units: nat) -> nat {
    if units % one_units() == 0 {
        units / one_units()
    } else {
        units / one_units() + 1
    }
}

/// The whole number nearest to `units`, halves rounded up.
pub open spec fn whole_nearest(units: nat) -> nat {
    if 2 * (units % one_units()) >= one_units() {
        units / one_units() + 1
    } else {
        units / one_units()
    }
}

/// The number of units that an unsigned bit pattern stands for.
pub open spec fn magnitude_units(magnitude: nat) -> nat {
    let exponent: nat = magnitude / (TWO_52 as nat);
    let fraction: nat = magnitude % (TWO_52 as nat);
    if exponent == 0 {
        fraction
    } else {
        (TWO_52 + fraction) as nat * pow2((exponent - 1) as nat)
    }
}

} // verus!
