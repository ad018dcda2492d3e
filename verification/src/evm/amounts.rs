//! Amounts on chain: whole numbers of 256 bits, scaled by a number of decimals.
use vstd::arithmetic::div_mod::*;
use vstd::arithmetic::mul::*;
use vstd::arithmetic::power::*;
use vstd::arithmetic::power2::*;
use vstd::prelude::*;

use crate::bignum::Natural;
use crate::decimal::print::{print_double, print_natural};
use crate::decimal::{power_as_double, power_of_ten, MAX_POWER};
use crate::double::Double;
use crate::text::join;

pub mod conversion;
pub mod laws;
pub mod values;

verus! {

/// A whole number of 256 bits.
#[derive(Debug, Clone, Copy, PartialEq, Eq, Structural)]
pub struct Uint256 {
    pub high: u128,
    pub low: u128,
}

/// 2^64
pub const TWO_64: u128 = 0x1_0000_0000_0000_0000;

/// One more than the largest low half.
pub open spec fn two_128() -> nat {
    (u128::MAX + 1) as nat
}

impl View for Uint256 {
    type V = nat;

    open spec fn view(&self) -> nat {
        self.high as nat * two_128() + self.low as nat
    }
}

impl Uint256 {
    /// A number of 128 bits.
    pub fn from_low(low: u128) -> (number: Uint256)
        ensures
            number@ == low,
    {
        Uint256 { high: 0, low }
    }

    /// The largest number.
    pub fn max() -> (number: Uint256)
        ensures
            number@ == two_128() * two_128() - 1,
    {
        assert(u128::MAX as nat * two_128() + u128::MAX as nat == two_128() * two_128() - 1)
            by (nonlinear_arith)
            requires
                u128::MAX as nat == two_128() - 1,
        ;
        Uint256 { high: u128::MAX, low: u128::MAX }
    }

    /// This number without a bound.
    pub fn to_natural(&self) -> (number: Natural)
        ensures
            number@ == self@,
    {
        let high: Natural = Natural::from_halves(
            (self.high / TWO_64) as u64,
            (self.high % TWO_64) as u64,
        );
        let low: Natural = Natural::from_halves(
            (self.low / TWO_64) as u64,
            (self.low % TWO_64) as u64,
        );
        proof {
            lemma_fundamental_div_mod(self.high as int, TWO_64 as int);
            lemma_fundamental_div_mod(self.low as int, TWO_64 as int);
            lemma2_to64();
            lemma_pow2_adds(64, 64);
        }
        high.shifted(128).plus(&low)
    }

    /// Whether this number is less than another.
    pub fn is_less(&self, other: &Uint256) -> (less: bool)
        ensures
            less == (self@ < other@),
    {
        proof {
            let w: int = two_128() as int;
            if self.high < other.high {
                assert(self.high * w + w <= other.high * w) by (nonlinear_arith)
                    requires
                        self.high + 1 <= other.high,
                        w > 0,
                ;
            } else if other.high < self.high {
                assert(other.high * w + w <= self.high * w) by (nonlinear_arith)
                    requires
                        other.high + 1 <= self.high,
                        w > 0,
                ;
            }
        }
        self.high < other.high || (self.high == other.high && self.low < other.low)
    }
}

/// `a * b + c` in 256 bits.
fn multiply_add(a: u64, b: u128, c: u128) -> (number: Uint256)
    ensures
        number@ == a as nat * b as nat + c as nat,
{
    let b_low: u128 = b % TWO_64;
    let b_high: u128 = b / TWO_64;
    proof {
        lemma_fundamental_div_mod(b as int, TWO_64 as int);
        assert(a as nat * b_low as nat <= 0xffff_ffff_ffff_ffff * 0xffff_ffff_ffff_ffff)
            by (nonlinear_arith)
            requires
                a <= 0xffff_ffff_ffff_ffff,
                b_low <= 0xffff_ffff_ffff_ffff,
        ;
        assert(a as nat * b_high as nat <= 0xffff_ffff_ffff_ffff * 0xffff_ffff_ffff_ffff)
            by (nonlinear_arith)
            requires
                a <= 0xffff_ffff_ffff_ffff,
                b_high <= 0xffff_ffff_ffff_ffff,
        ;
    }
    let low_part: u128 = a as u128 * b_low;
    let high_part: u128 = a as u128 * b_high;
    let shifted: u128 = (high_part % TWO_64) * TWO_64;
    let carried: u128 = high_part / TWO_64;
    let (first, over_first): (u128, bool) = add_carry(low_part, shifted);
    let (second, over_second): (u128, bool) = add_carry(first, c);
    proof {
        lemma_fundamental_div_mod(high_part as int, TWO_64 as int);
        assert(a as int * b as int == a * (TWO_64 * b_high + b_low)) by {
            assert(b as int == TWO_64 * b_high + b_low);
        }
        assert(a * (TWO_64 * b_high + b_low) == TWO_64 * (a * b_high) + a * b_low)
            by (nonlinear_arith);
        assert(TWO_64 * high_part == carried * two_128() + shifted) by (nonlinear_arith)
            requires
                high_part == TWO_64 * carried + high_part % TWO_64,
                shifted == (high_part % TWO_64) * TWO_64,
                two_128() == TWO_64 * TWO_64,
        ;
        let extra: nat = (if over_first {
            1nat
        } else {
            0nat
        }) + if over_second {
            1nat
        } else {
            0nat
        };
        assert((carried + extra) * two_128() == carried * two_128() + extra * two_128())
            by (nonlinear_arith);
    }
    let mut high: u128 = carried;
    if over_first {
        high = high + 1;
    }
    if over_second {
        high = high + 1;
    }
    Uint256 { high, low: second }
}

fn add_carry(a: u128, b: u128) -> (result: (u128, bool))
    ensures
        result.0 + (if result.1 {
            two_128()
        } else {
            0
        }) == a + b,
{
    if a > u128::MAX - b {
        ((a - (u128::MAX - b)) - 1, true)
    } else {
        (a + b, false)
    }
}

/// A number below 2^256 in its two halves.
pub open spec fn as_uint(number: nat) -> Uint256 {
    Uint256 {
        high: (number / two_128()) as u128,
        low: (number % two_128()) as u128,
    }
}

/// The halves of a number are those that it is made of.
pub proof fn lemma_as_uint(number: Uint256)
    ensures
        as_uint(number@) == number,
{
    lemma_fundamental_div_mod_converse(
        number@ as int,
        two_128() as int,
        number.high as int,
        number.low as int,
    );
}

/// A number below 2^256 is the value of its two halves.
pub proof fn lemma_uint_of(number: nat)
    requires
        number < two_128() * two_128(),
    ensures
        as_uint(number)@ == number,
{
    let w: int = two_128() as int;
    lemma_fundamental_div_mod(number as int, w);
    lemma_mod_bound(number as int, w);
    let q: int = number as int / w;
    assert(0 <= q < w) by (nonlinear_arith)
        requires
            w * q <= number,
            number < w * w,
            w > 0,
            number < w * q + w,
            number >= 0,
    ;
    lemma_mul_is_commutative(q, w);
}

/// Why an amount cannot be converted.
#[derive(Debug, Clone, Copy, PartialEq, Eq, Structural)]
pub enum AmountError {
    TooManyDecimals,
    /// Negative, infinite or "not a number".
    Negative(Double),
    TooLarge(Double),
    BeyondU128(Uint256),
}

impl AmountError {
    /// What is said of it to people.
    pub open spec fn text(self) -> Seq<char> {
        match self {
            AmountError::TooManyDecimals => "to_bigint: decimals 不能超过 38"@,
            AmountError::Negative(amount) => "to_bigint: amount 必须为非负有限数，got "@
                + crate::decimal::print::shortest_text(amount),
            AmountError::TooLarge(amount) => "to_bigint: amount 超出安全精度范围（>1e15），got "@
                + crate::decimal::print::shortest_text(amount),
            AmountError::BeyondU128(number) => "from_bigint: amount 超出 u128 范围: "@
                + crate::decimal::printed(number@),
        }
    }

    /// The message for people.
    pub fn message(self) -> (text: String)
        ensures
            text@ == self.text(),
    {
        match self {
            AmountError::TooManyDecimals => "to_bigint: decimals 不能超过 38".to_owned(),
            AmountError::Negative(amount) => join(
                "to_bigint: amount 必须为非负有限数，got ",
                print_double(amount).as_str(),
            ),
            AmountError::TooLarge(amount) => join(
                "to_bigint: amount 超出安全精度范围（>1e15），got ",
                print_double(amount).as_str(),
            ),
            AmountError::BeyondU128(number) => join(
                "from_bigint: amount 超出 u128 范围: ",
                print_natural(&number.to_natural()).as_str(),
            ),
        }
    }
}

/// Ten to the power of a number of decimals.
pub open spec fn scale(decimals: u8) -> nat {
    pow(10, decimals as nat) as nat
}

/// The fractional part of an amount, in the smallest units on chain, as a double.
pub open spec fn scaled_fraction(amount: Double, decimals: u8) -> Double {
    amount.difference(amount.rounded_down()).product(Double::whole(false, scale(decimals)))
}

/// An amount in the smallest units on chain: the whole part exactly, the fraction rounded up or to
/// the nearest.
pub open spec fn chain_amount(amount: Double, decimals: u8, round_up: bool) -> nat {
    let fraction: nat = scaled_fraction(amount, decimals).abs_units();
    crate::double::whole_down(amount.abs_units()) * scale(decimals) + if round_up {
        crate::double::whole_up(fraction)
    } else {
        crate::double::whole_nearest(fraction)
    }
}

/// An amount in the smallest units on chain, or why it cannot be converted.
pub open spec fn chain_amount_result(amount: Double, decimals: u8, round_up: bool) -> Result<
    nat,
    AmountError,
> {
    if decimals > MAX_POWER {
        Err(AmountError::TooManyDecimals)
    } else if !(amount.finite() && Double::nought().at_most(amount)) {
        Err(AmountError::Negative(amount))
    } else if !amount.less(Double::quadrillion()) {
        Err(AmountError::TooLarge(amount))
    } else {
        Ok(chain_amount(amount, decimals, round_up))
    }
}

/// The value of 10^15.
pub proof fn lemma_quadrillion()
    ensures
        Double::quadrillion().units() == 1_000_000_000_000_000 * crate::double::one_units(),
{
    crate::double::rounding::lemma_powers();
    lemma_pow2_adds(3, 1071);
    lemma2_to64();
    let m: nat = 0x430c_6bf5_2634_0000;
    assert(m / 0x0010_0000_0000_0000nat == 1072);
    assert(m % 0x0010_0000_0000_0000nat == 0xc_6bf5_2634_0000);
    assert((1_000_000_000_000_000 * pow2(3)) * pow2(1071) == 1_000_000_000_000_000 * (pow2(3)
        * pow2(1071))) by (nonlinear_arith);
}

/// A scale is at most 2^127, as a double too.
pub proof fn lemma_scale_bound(decimals: u8)
    requires
        decimals <= MAX_POWER,
    ensures
        scale(decimals) <= pow2(127),
        pow2(127) <= u128::MAX,
        ({
            let s: Double = Double::whole(false, scale(decimals));
            &&& s.finite()
            &&& !s.negative()
            &&& s.abs_units() <= pow2(127) * crate::double::one_units()
        }),
{
    let one: nat = crate::double::one_units();
    let k: nat = scale(decimals);
    crate::decimal::lemma_largest_power();
    lemma_pow_increases(10, decimals as nat, 38);
    lemma_pow_positive(10, decimals as nat);
    lemma_pow2_adds(64, 63);
    lemma2_to64();
    lemma2_to64_rest();
    lemma_pow2_adds(127, 1074);
    lemma_pow2_pos(1074);
    lemma_mul_inequality(k as int, pow2(127) as int, one as int);
    crate::double::rounding::lemma_powers();
    crate::double::rounding::lemma_representable(1, 1201);
    lemma_mul_basics(pow2(1201) as int);
    crate::double::rounding::lemma_nearest_monotone(k * one, 1, pow2(1201), 1);
    let bits: nat = crate::double::nearest_bits(k * one, 1);
    crate::double::rounding::lemma_order_of_bits(bits, crate::double::nearest_bits(pow2(1201), 1));
}

/// The scaled fraction of an amount is a number between zero and 2^127.
pub proof fn lemma_fraction(amount: Double, decimals: u8)
    requires
        decimals <= MAX_POWER,
        amount.finite(),
        Double::nought().at_most(amount),
        amount.less(Double::quadrillion()),
    ensures
        crate::double::whole_down(amount.abs_units()) < 1_000_000_000_000_000,
        scaled_fraction(amount, decimals).finite(),
        scaled_fraction(amount, decimals).abs_units() <= pow2(127) * crate::double::one_units(),
{
    let one: nat = crate::double::one_units();
    let u: nat = amount.abs_units();
    let w: nat = crate::double::whole_down(u);
    lemma_pow2_pos(1074);
    crate::double::rounding::lemma_powers();
    lemma_quadrillion();
    assert(Double::nought().units() == 0);
    if amount.negative() {
        assert(amount.units() == -(u as int));
        assert(u == 0);
        lemma_div_basics(one as int);
    }
    lemma_fundamental_div_mod(u as int, one as int);
    lemma_mod_bound(u as int, one as int);
    lemma_mul_is_commutative(one as int, w as int);
    assert(w < 1_000_000_000_000_000) by (nonlinear_arith)
        requires
            one * w <= u,
            u < 1_000_000_000_000_000 * one,
            one > 0,
    ;
    crate::double::rounding::lemma_representable(w, 1074);
    let floor: Double = amount.rounded_down();
    if amount.negative() {
        assert(u % one == 0);
        assert(crate::double::whole_up(u) == 0);
        lemma_mul_basics(one as int);
    }
    assert(floor.finite());
    assert(floor.abs_units() == w * one);
    let part: Double = amount.difference(floor);
    let rest: int = u - w * one;
    assert(0 <= rest < one);
    if amount.negative() {
        assert(part.abs_units() == 0);
    } else if rest > 0 {
        crate::double::rounding::lemma_nearest_monotone(rest as nat, 1, one, 1);
        crate::double::laws::lemma_one();
        crate::double::rounding::lemma_nearest_exact(0x3ff0_0000_0000_0000);
        crate::double::rounding::lemma_order_of_bits(
            crate::double::nearest_bits(rest as nat, 1),
            0x3ff0_0000_0000_0000,
        );
    }
    assert(part.finite());
    assert(part.abs_units() <= one);
    lemma_scale_bound(decimals);
    let s: Double = Double::whole(false, scale(decimals));
    let f: nat = part.abs_units();
    assert(f * s.abs_units() * 1 <= s.abs_units() * one) by (nonlinear_arith)
        requires
            f <= one,
    ;
    crate::double::rounding::lemma_nearest_monotone(f * s.abs_units(), one, s.abs_units(), 1);
    crate::double::rounding::lemma_nearest_exact(s.magnitude());
    crate::double::rounding::lemma_order_of_bits(
        crate::double::nearest_bits(f * s.abs_units(), one),
        s.magnitude(),
    );
}

/// A number of ones between zero and 2^127 rounds to a whole number in that range.
pub proof fn lemma_whole_range(units: nat)
    requires
        units <= pow2(127) * crate::double::one_units(),
    ensures
        crate::double::whole_up(units) <= pow2(127),
        crate::double::whole_nearest(units) <= pow2(127),
        crate::double::whole_nearest(units) <= crate::double::whole_up(units),
{
    let one: int = crate::double::one_units() as int;
    let q: int = units as int / one;
    lemma_pow2_pos(1074);
    lemma_fundamental_div_mod(units as int, one);
    lemma_mod_bound(units as int, one);
    assert(q <= pow2(127)) by (nonlinear_arith)
        requires
            one * q <= units,
            units <= pow2(127) * one,
            one > 0,
    ;
    if q == pow2(127) {
        assert(one * q == pow2(127) * one) by (nonlinear_arith)
            requires
                q == pow2(127),
        ;
    }
}

fn to_bigint_with_rounding(amount: Double, decimals: u8, round_up: bool) -> (result: Result<
    Uint256,
    AmountError,
>)
    ensures
        match result {
            Ok(number) => chain_amount_result(amount, decimals, round_up) == Ok::<
                nat,
                AmountError,
            >(number@),
            Err(error) => chain_amount_result(amount, decimals, round_up) == Err::<
                nat,
                AmountError,
            >(error),
        },
{
    if decimals as u32 > MAX_POWER {
        return Err(AmountError::TooManyDecimals);
    }
    if !(amount.is_finite() && Double::nought().is_at_most(amount)) {
        return Err(AmountError::Negative(amount));
    }
    if !amount.is_less(Double::quadrillion()) {
        return Err(AmountError::TooLarge(amount));
    }
    proof {
        lemma_fraction(amount, decimals);
        lemma_scale_bound(decimals);
        lemma_whole_range(scaled_fraction(amount, decimals).abs_units());
    }
    let int_part: u128 = amount.floor_to_integer();
    let scale: u128 = power_of_ten(decimals as u32);
    let fraction: Double = amount.minus(amount.floor()).times(Double::from_integer(scale));
    let rounded: u128 = if round_up {
        fraction.ceil_to_integer()
    } else {
        fraction.round_to_integer()
    };
    Ok(multiply_add(int_part as u64, scale, rounded))
}

/// Converts an amount to the smallest units on chain, the fraction rounded to the nearest.
pub fn to_bigint(amount: Double, decimals: u8) -> (result: Result<Uint256, AmountError>)
    ensures
        match result {
            Ok(number) => chain_amount_result(amount, decimals, false) == Ok::<nat, AmountError>(
                number@,
            ),
            Err(error) => chain_amount_result(amount, decimals, false) == Err::<nat, AmountError>(
                error,
            ),
        },
{
    to_bigint_with_rounding(amount, decimals, false)
}

/// Converts a least amount to the smallest units on chain, the fraction rounded up, so that the
/// conversion does not loosen it.
pub fn to_bigint_ceil(amount: Double, decimals: u8) -> (result: Result<Uint256, AmountError>)
    ensures
        match result {
            Ok(number) => chain_amount_result(amount, decimals, true) == Ok::<nat, AmountError>(
                number@,
            ),
            Err(error) => chain_amount_result(amount, decimals, true) == Err::<nat, AmountError>(
                error,
            ),
        },
{
    to_bigint_with_rounding(amount, decimals, true)
}

/// Every amount that can be converted fits into 256 bits.
pub proof fn law_chain_amounts_fit(amount: Double, decimals: u8, round_up: bool)
    requires
        chain_amount_result(amount, decimals, round_up) is Ok,
    ensures
        chain_amount(amount, decimals, round_up) < two_128() * two_128(),
{
    lemma_fraction(amount, decimals);
    lemma_scale_bound(decimals);
    lemma_whole_range(scaled_fraction(amount, decimals).abs_units());
    let w: nat = crate::double::whole_down(amount.abs_units());
    assert(w * scale(decimals) <= 1_000_000_000_000_000 * two_128()) by (nonlinear_arith)
        requires
            w <= 1_000_000_000_000_000,
            scale(decimals) <= two_128(),
    ;
    assert(1_000_000_000_000_000 * two_128() + two_128() < two_128() * two_128())
        by (nonlinear_arith)
        requires
            two_128() > 1_000_000_000_000_001,
    ;
}

/// Ten to the power of a number of decimals, as the nearest double.
pub open spec fn scale_as_double(decimals: u8) -> Double {
    Double::whole(false, scale(decimals))
}

/// Ten to the power of a number of decimals, as the nearest double. Up to 22 decimals that is the
/// power itself.
pub fn decimal_scale(decimals: u8) -> (factor: Double)
    ensures
        factor == scale_as_double(decimals),
{
    power_as_double(decimals)
}

/// An amount that units on chain stand for, or why it cannot be told.
pub open spec fn plain_amount(number: nat, decimals: u8) -> Result<Double, AmountError> {
    if number >= two_128() {
        Err(AmountError::BeyondU128(as_uint(number)))
    } else {
        Ok(Double::whole(false, number).quotient(scale_as_double(decimals)))
    }
}

/// Converts units on chain back to an amount.
pub fn from_bigint(number: Uint256, decimals: u8) -> (result: Result<Double, AmountError>)
    ensures
        result == plain_amount(number@, decimals),
{
    if number.high > 0 {
        assert(number.high * two_128() >= two_128()) by (nonlinear_arith)
            requires
                number.high >= 1,
        ;
        proof {
            lemma_as_uint(number);
        }
        return Err(AmountError::BeyondU128(number));
    }
    proof {
        lemma_mul_basics(two_128() as int);
    }
    Ok(Double::from_integer(number.low).over(decimal_scale(decimals)))
}

/// Rounding a least amount up covers its scaled fraction, and never gives less than rounding to
/// the nearest.
pub proof fn law_rounding_up_does_not_loosen(amount: Double, decimals: u8)
    requires
        chain_amount_result(amount, decimals, true) is Ok,
    ensures
        chain_amount(amount, decimals, true) >= chain_amount(amount, decimals, false),
        (chain_amount(amount, decimals, true) - crate::double::whole_down(amount.abs_units())
            * scale(decimals)) * crate::double::one_units() >= scaled_fraction(
            amount,
            decimals,
        ).abs_units(),
{
    lemma_fraction(amount, decimals);
    let f: nat = scaled_fraction(amount, decimals).abs_units();
    lemma_whole_range(f);
    let one: int = crate::double::one_units() as int;
    lemma_pow2_pos(1074);
    lemma_fundamental_div_mod(f as int, one);
    lemma_mod_bound(f as int, one);
    let q: int = f as int / one;
    lemma_mul_is_commutative(q, one);
    lemma_mul_is_distributive_add_other_way(one, q, 1);
}

} // verus!
