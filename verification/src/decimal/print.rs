//! Numbers as decimal text.
use vstd::arithmetic::div_mod::*;
use vstd::arithmetic::mul::*;
use vstd::arithmetic::power::*;
use vstd::arithmetic::power2::*;
use vstd::prelude::*;
use vstd::string::*;

use crate::bignum::Natural;
use crate::decimal::magnitude::{magnitude, units_of};
use crate::decimal::{digit_text, round_scaled, times_ten_to, Scaled};
use crate::double::Double;
use crate::text::join;

verus! {

/// A text with as many zeros in front as it takes to reach a length.
pub open spec fn padded(s: Seq<char>, length: nat) -> Seq<char> {
    if s.len() < length {
        Seq::new((length - s.len()) as nat, |i: int| '0') + s
    } else {
        s
    }
}

/// Digits with a point before the last `places`.
pub open spec fn with_point(digits: Seq<char>, places: nat) -> Seq<char> {
    if places == 0 {
        digits
    } else {
        digits.take(digits.len() - places) + "."@ + digits.skip(digits.len() - places)
    }
}

/// A number of `10^-places` as decimal text, with at least one digit before the point.
pub open spec fn point_text(n: nat, places: nat) -> Seq<char> {
    with_point(padded(crate::decimal::printed(n), places + 1), places)
}

/// A sign and a text.
pub open spec fn signed_text(negative: bool, s: Seq<char>) -> Seq<char> {
    if negative {
        "-"@ + s
    } else {
        s
    }
}

/// A number with a fixed number of decimals, rounded to the nearest, ties to even.
pub open spec fn fixed_text(x: Double, places: nat) -> Seq<char> {
    if x.is_nan() {
        "NaN"@
    } else if x.infinite() {
        signed_text(x.negative(), "inf"@)
    } else {
        signed_text(
            x.negative(),
            point_text(
                crate::double::round_half_even(
                    x.abs_units() * pow(10, places) as nat,
                    crate::double::one_units(),
                ),
                places,
            ),
        )
    }
}

/// What stands over and under the line when a number of units is written in units of `10^e`.
pub open spec fn over(units: nat, e: int) -> nat {
    units * crate::decimal::ten_up(-e)
}

/// The lower part of that fraction.
pub open spec fn under(e: int) -> nat {
    crate::double::one_units() * crate::decimal::ten_up(e)
}

/// A decimal number reads as a double.
pub open spec fn reads_as(number: Scaled, x: Double) -> bool {
    crate::decimal::nearest_double(false, number) == x.absolute()
}

/// The number of `10^e` that a double is written with: the whole part or one more, the one that
/// reads as the double, and the nearer one where both do or neither does.
pub open spec fn rounded_digits(x: Double, e: int) -> nat {
    let num: nat = over(x.abs_units(), e);
    let den: nat = under(e);
    let down: nat = num / den;
    let low: bool = reads_as(Scaled { digits: down, exponent: e }, x);
    let high: bool = reads_as(Scaled { digits: down + 1, exponent: e }, x);
    if low == high {
        if 2 * (num % den) >= den {
            down + 1
        } else {
            down
        }
    } else if high {
        down + 1
    } else {
        down
    }
}

/// The shortest decimal number that reads as a double, among those of at least `count` digits; no
/// more than seventeen are needed.
pub open spec fn shortest_from(x: Double, count: nat) -> Scaled
    decreases 17 - count,
{
    let e: int = crate::decimal::magnitude::decimal_magnitude(x) - count + 1;
    let number: Scaled = Scaled { digits: rounded_digits(x, e), exponent: e };
    if count >= 17 || reads_as(number, x) {
        number
    } else {
        shortest_from(x, count + 1)
    }
}

/// A scaled number as decimal text, without an exponent.
pub open spec fn plain_text(number: Scaled) -> Seq<char> {
    if number.exponent >= 0 {
        crate::decimal::printed(
            (number.digits * crate::decimal::ten_up(number.exponent)) as nat,
        )
    } else {
        point_text(number.digits, (-number.exponent) as nat)
    }
}

/// A number as the shortest decimal text that reads as it.
pub open spec fn shortest_text(x: Double) -> Seq<char> {
    if x.is_nan() {
        "NaN"@
    } else if x.infinite() {
        signed_text(x.negative(), "inf"@)
    } else if x.zero() {
        signed_text(x.negative(), "0"@)
    } else {
        signed_text(x.negative(), plain_text(shortest_digits(x)))
    }
}

/// The shortest decimal number that reads as a double. One digit rounded up to ten is a one.
pub open spec fn shortest_digits(x: Double) -> Scaled {
    let number: Scaled = shortest_from(x, 1);
    if number.digits == 10 {
        Scaled { digits: 1, exponent: number.exponent + 1 }
    } else {
        number
    }
}

/// The decimal digits of a number.
pub fn print_natural(n: &Natural) -> (text: String)
    ensures
        text@ == crate::decimal::printed(n@),
    decreases n@,
{
    let (front, last): (Natural, u32) = n.divided(10);
    let digit: &'static str = digit_text(last as u64);
    if front.is_less(&Natural::from_small(1)) {
        digit.to_owned()
    } else {
        let text: String = join(print_natural(&front).as_str(), digit);
        assert(text@ =~= crate::decimal::printed(n@ / 10).push(
            crate::decimal::digit_char(n@ % 10),
        ));
        text
    }
}

fn pad(text: String, length: usize) -> (result: String)
    ensures
        result@ == padded(text@, length as nat),
{
    let ghost start: Seq<char> = text@;
    let mut result: String = text;
    let mut count: usize = result.as_str().unicode_len();
    assert(Seq::new(0, |i: int| '0') + start =~= start);
    while count < length
        invariant
            count == result@.len(),
            start.len() <= count,
            count <= length || count == start.len(),
            result@ == Seq::new((count - start.len()) as nat, |i: int| '0') + start,
        decreases length - count,
    {
        let ghost before: Seq<char> = result@;
        proof {
            reveal_strlit("0");
        }
        result = join("0", result.as_str());
        count = count + 1;
        assert(result@ =~= Seq::new((count - start.len()) as nat, |i: int| '0') + start);
    }
    result
}

fn print_with_point(n: &Natural, places: u16) -> (text: String)
    ensures
        text@ == point_text(n@, places as nat),
{
    if places == 0 {
        let text: String = print_natural(n);
        proof {
            lemma_printed_length(n@);
        }
        return text;
    }
    let wanted: usize = places as usize + 1;
    let digits: String = pad(print_natural(n), wanted);
    let length: usize = digits.as_str().unicode_len();
    let split: usize = length - places as usize;
    let front: &str = digits.as_str().substring_char(0, split);
    let back: &str = digits.as_str().substring_char(split, length);
    assert(front@ =~= digits@.take(split as int));
    assert(back@ =~= digits@.skip(split as int));
    join(join(front, ".").as_str(), back)
}

/// Every number has a digit.
proof fn lemma_printed_length(n: nat)
    ensures
        crate::decimal::printed(n).len() >= 1,
{
}

fn with_minus(negative: bool, text: String) -> (result: String)
    ensures
        result@ == signed_text(negative, text@),
{
    if negative {
        join("-", text.as_str())
    } else {
        text
    }
}

/// A number divided by two to a power.
fn halved(number: Natural, power: u32) -> (result: Natural)
    ensures
        result@ == number@ / pow2(power as nat),
{
    let ghost start: nat = number@;
    let mut result: Natural = number;
    let mut done: u32 = 0;
    proof {
        lemma2_to64();
        lemma_div_basics(start as int);
    }
    while power - done >= 31
        invariant
            done <= power,
            result@ == start / pow2(done as nat),
        decreases power - done,
    {
        proof {
            lemma2_to64();
            lemma_pow2_adds(done as nat, 31);
            lemma_pow2_pos(done as nat);
            lemma_div_denominator(start as int, pow2(done as nat) as int, pow2(31) as int);
        }
        result = result.divided(0x8000_0000).0;
        done = done + 31;
    }
    while done < power
        invariant
            done <= power,
            result@ == start / pow2(done as nat),
        decreases power - done,
    {
        proof {
            lemma2_to64();
            lemma_pow2_adds(done as nat, 1);
            lemma_pow2_pos(done as nat);
            lemma_div_denominator(start as int, pow2(done as nat) as int, pow2(1) as int);
        }
        result = result.divided(2).0;
        done = done + 1;
    }
    result
}

/// A number divided by ten to a power.
fn tenths(number: Natural, power: u32) -> (result: Natural)
    ensures
        result@ == number@ / crate::decimal::ten_up(power as int),
{
    let ghost start: nat = number@;
    let mut result: Natural = number;
    let mut done: u32 = 0;
    proof {
        lemma_pow0(10);
        lemma_div_basics(start as int);
    }
    while done < power
        invariant
            done <= power,
            result@ == start / (pow(10, done as nat) as nat),
        decreases power - done,
    {
        proof {
            lemma_pow_positive(10, done as nat);
            lemma_pow_positive(10, (done + 1) as nat);
            lemma_pow_adds(10, done as nat, 1);
            lemma_pow1(10);
            lemma_div_denominator(start as int, pow(10, done as nat), 10);
        }
        result = result.divided(10).0;
        done = done + 1;
    }
    proof {
        lemma_pow_positive(10, power as nat);
    }
    result
}

/// The whole part of a fraction, and how what is left over compares with one half.
struct Cut {
    whole: Natural,
    at_least_half: bool,
    above_half: bool,
}

impl Cut {
    spec fn of(self, num: nat, den: nat) -> bool {
        &&& self.whole@ == num / den
        &&& self.at_least_half == (2 * (num % den) >= den)
        &&& self.above_half == (2 * (num % den) > den)
    }
}

fn cut(units: Natural, up: u32, down: u32) -> (result: Cut)
    ensures
        result.of(
            units@ * crate::decimal::ten_up(up as int),
            crate::double::one_units() * crate::decimal::ten_up(down as int),
        ),
{
    let num: Natural = times_ten_to(units, up as u128);
    let copy: Natural = num.scaled(1, 0);
    let whole: Natural = tenths(halved(copy, 1074), down);
    let den: Natural = times_ten_to(Natural::from_small(1).shifted(1074), down as u128);
    let back: Natural = times_ten_to(whole.shifted(1074), down as u128);
    proof {
        let n: int = num@ as int;
        let one: int = crate::double::one_units() as int;
        let t: int = crate::decimal::ten_up(down as int) as int;
        let d: int = den@ as int;
        lemma_mul_basics(n);
        lemma_mul_basics(one);
        lemma_pow2_pos(1074);
        lemma_pow_positive(10, down as nat);
        lemma_div_denominator(n, one, t);
        lemma_mul_strictly_positive(one, t);
        lemma_mul_is_associative(whole@ as int, one, t);
        lemma_mul_is_commutative(whole@ as int, d);
        lemma_fundamental_div_mod(n, d);
        lemma_mod_bound(n, d);
    }
    match num.minus(&back) {
        Some(rest) => {
            let twice: Natural = rest.scaled(2, 0);
            let at_least_half: bool = !twice.is_less(&den);
            let above_half: bool = den.is_less(&twice);
            Cut { whole, at_least_half, above_half }
        },
        None => Cut { whole, at_least_half: false, above_half: false },
    }
}

/// A number with a fixed number of decimals.
pub fn print_fixed(x: Double, places: u16) -> (text: String)
    ensures
        text@ == fixed_text(x, places as nat),
{
    if x.is_not_a_number() {
        return "NaN".to_owned();
    }
    let negative: bool = x.is_negative();
    if !x.is_finite() {
        return with_minus(negative, "inf".to_owned());
    }
    proof {
        lemma_pow0(10);
        lemma_pow_positive(10, places as nat);
        lemma_mul_basics(crate::double::one_units() as int);
        lemma_pow2_pos(1074);
    }
    let cut: Cut = cut(units_of(x), places as u32, 0);
    let (_, parity): (Natural, u32) = cut.whole.divided(2);
    let rounded: Natural = if cut.above_half || (cut.at_least_half && parity == 1) {
        cut.whole.scaled(1, 1)
    } else {
        cut.whole
    };
    with_minus(negative, print_with_point(&rounded, places))
}

/// A number lies below the power of ten with as many zeros as it has digits.
proof fn lemma_printed_bound(n: nat)
    ensures
        n < pow(10, crate::decimal::printed(n).len()),
    decreases n,
{
    let length: nat = crate::decimal::printed(n).len();
    lemma_pow1(10);
    if n >= 10 {
        lemma_printed_bound(n / 10);
        let before: nat = crate::decimal::printed(n / 10).len();
        lemma_pow_adds(10, before, 1);
        assert(length == before + 1);
        assert(n < 10 * pow(10, before));
        lemma_mul_is_commutative(pow(10, before), 10);
    }
}

/// A decimal number.
struct Number {
    digits: Natural,
    exponent: i32,
}

impl Number {
    spec fn scaled(self) -> Scaled {
        Scaled { digits: self.digits@, exponent: self.exponent as int }
    }
}

fn does_read_as(digits: &Natural, exponent: i32, x: Double) -> (result: bool)
    requires
        !x.is_nan(),
    ensures
        result == reads_as(Scaled { digits: digits@, exponent: exponent as int }, x),
{
    let text: String = print_natural(digits);
    let length: usize = text.as_str().unicode_len();
    proof {
        lemma_printed_bound(digits@);
    }
    let read: Double = round_scaled(false, digits.scaled(1, 0), length as u128, exponent as i128);
    read.bits == x.abs().bits
}

fn digits_at(x: Double, exponent: i32) -> (digits: Natural)
    requires
        x.finite(),
        -500 < exponent < 500,
    ensures
        digits@ == rounded_digits(x, exponent as int),
{
    let up: u32 = if exponent < 0 {
        (-exponent) as u32
    } else {
        0
    };
    let down: u32 = if exponent > 0 {
        exponent as u32
    } else {
        0
    };
    let cut: Cut = cut(units_of(x), up, down);
    let next: Natural = cut.whole.scaled(1, 1);
    let low: bool = does_read_as(&cut.whole, exponent, x);
    let high: bool = does_read_as(&next, exponent, x);
    if low == high {
        if cut.at_least_half {
            next
        } else {
            cut.whole
        }
    } else if high {
        next
    } else {
        cut.whole
    }
}

fn find_shortest(x: Double) -> (number: Number)
    requires
        x.finite(),
        !x.zero(),
    ensures
        number.scaled() == shortest_digits(x),
        -500 < number.exponent < 500,
{
    let m: i32 = magnitude(x);
    let mut count: i32 = 1;
    loop
        invariant
            x.finite(),
            !x.zero(),
            -400 < m < 400,
            m == crate::decimal::magnitude::decimal_magnitude(x),
            1 <= count <= 17,
            shortest_from(x, count as nat) == shortest_from(x, 1),
        decreases 17 - count,
    {
        let exponent: i32 = m - count + 1;
        let digits: Natural = digits_at(x, exponent);
        if count >= 17 || does_read_as(&digits, exponent, x) {
            let ten: bool = !digits.is_less(&Natural::from_small(10)) && digits.is_less(
                &Natural::from_small(11),
            );
            if ten {
                return Number { digits: Natural::from_small(1), exponent: exponent + 1 };
            }
            return Number { digits, exponent };
        }
        count = count + 1;
    }
}

/// A number as the shortest decimal text that reads as it.
pub fn print_double(x: Double) -> (text: String)
    ensures
        text@ == shortest_text(x),
{
    if x.is_not_a_number() {
        return "NaN".to_owned();
    }
    let negative: bool = x.is_negative();
    if !x.is_finite() {
        return with_minus(negative, "inf".to_owned());
    }
    if x.abs().bits == 0 {
        return with_minus(negative, "0".to_owned());
    }
    let number: Number = find_shortest(x);
    let text: String = if number.exponent >= 0 {
        print_natural(&times_ten_to(number.digits, number.exponent as u128))
    } else {
        print_with_point(&number.digits, (-number.exponent) as u16)
    };
    with_minus(negative, text)
}

} // verus!
