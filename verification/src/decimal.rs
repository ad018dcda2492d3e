//! Decimal text as doubles.
use vstd::arithmetic::div_mod::*;
use vstd::arithmetic::mul::*;
use vstd::arithmetic::power::*;
use vstd::arithmetic::power2::*;
use vstd::prelude::*;
use vstd::string::*;

use crate::bignum::Natural;
use crate::double::{Double, INFINITY_BITS, NAN_BITS, TWO_52, TWO_53};
use crate::text::{characters, eq_ignore_case, join};

pub mod faults;
pub mod laws;
pub mod magnitude;
pub mod print;

verus! {

/// A decimal digit.
pub open spec fn is_digit(c: char) -> bool {
    48 <= c as u32 <= 57
}

/// What a decimal digit stands for.
pub open spec fn digit_value(c: char) -> nat {
    (c as u32 - 48) as nat
}

/// Where the digits that start at position `i` end.
pub open spec fn digits_end(s: Seq<char>, i: nat) -> nat
    decreases s.len() - i,
{
    if i < s.len() && is_digit(s[i as int]) {
        digits_end(s, i + 1)
    } else {
        i
    }
}

/// The number that decimal digits stand for.
pub open spec fn digits_value(s: Seq<char>) -> nat
    decreases s.len(),
{
    if s.len() == 0 {
        0
    } else {
        digits_value(s.drop_last()) * 10 + digit_value(s.last())
    }
}

/// A whole number in decimal digits, at least one.
pub open spec fn read_natural(s: Seq<char>) -> Option<nat> {
    if s.len() > 0 && digits_end(s, 0) == s.len() {
        Some(digits_value(s))
    } else {
        None
    }
}

/// A whole number in decimal digits with an optional leading plus sign.
pub open spec fn read_unsigned(s: Seq<char>) -> Option<nat> {
    if s.len() > 0 && s[0] == '+' {
        read_natural(s.skip(1))
    } else {
        read_natural(s)
    }
}

/// A whole number in decimal digits with an optional sign.
pub open spec fn read_signed(s: Seq<char>) -> Option<int> {
    if s.len() > 0 && s[0] == '-' {
        match read_natural(s.skip(1)) {
            Some(value) => Some(-(value as int)),
            None => None,
        }
    } else {
        match read_unsigned(s) {
            Some(value) => Some(value as int),
            None => None,
        }
    }
}

/// `digits * 10^exponent`.
pub struct Scaled {
    pub digits: nat,
    pub exponent: int,
}

/// Whether the digits at the start of `s` are followed by a decimal point.
pub open spec fn has_point(s: Seq<char>) -> bool {
    digits_end(s, 0) < s.len() && s[digits_end(s, 0) as int] == '.'
}

/// Where the digits at the start of `s`, with the decimal point among them, end.
pub open spec fn number_end(s: Seq<char>) -> nat {
    if has_point(s) {
        digits_end(s, digits_end(s, 0) + 1)
    } else {
        digits_end(s, 0)
    }
}

/// The digits after the decimal point.
pub open spec fn fraction_digits(s: Seq<char>) -> Seq<char> {
    if has_point(s) {
        s.subrange(digits_end(s, 0) as int + 1, number_end(s) as int)
    } else {
        Seq::empty()
    }
}

/// The digits before and after the decimal point.
pub open spec fn number_digits(s: Seq<char>) -> Seq<char> {
    s.take(digits_end(s, 0) as int) + fraction_digits(s)
}

/// Digits with an optional point and an optional exponent; at least one digit before the
/// exponent.
pub open spec fn read_number(s: Seq<char>) -> Option<Scaled> {
    let end: nat = number_end(s);
    let digits: nat = digits_value(number_digits(s));
    let fraction: nat = fraction_digits(s).len();
    if number_digits(s).len() == 0 {
        None
    } else if end == s.len() {
        Some(Scaled { digits, exponent: -(fraction as int) })
    } else if s[end as int] == 'e' || s[end as int] == 'E' {
        match read_signed(s.skip(end as int + 1)) {
            Some(exponent) => Some(Scaled { digits, exponent: exponent - fraction }),
            None => None,
        }
    } else {
        None
    }
}

/// Ten to the power of the positive part of `e`.
pub open spec fn ten_up(e: int) -> nat {
    if e > 0 {
        pow(10, e as nat) as nat
    } else {
        1
    }
}

/// The double nearest to a scaled number.
pub open spec fn nearest_double(negative: bool, number: Scaled) -> Double {
    Double::signed(
        negative,
        crate::double::nearest_bits(
            number.digits * ten_up(number.exponent) * crate::double::one_units(),
            ten_up(-number.exponent),
        ),
    )
}

/// The double that a decimal text stands for: an optional sign, then a number, an infinity or
/// "not a number", the latter two in letters of either case.
pub open spec fn read_double(s: Seq<char>) -> Option<Double> {
    let negative: bool = s.len() > 0 && s[0] == '-';
    let body: Seq<char> = if s.len() > 0 && (s[0] == '-' || s[0] == '+') {
        s.skip(1)
    } else {
        s
    };
    if crate::text::same_ignoring_case(body, "inf"@) || crate::text::same_ignoring_case(
        body,
        "infinity"@,
    ) {
        Some(Double::signed(negative, INFINITY_BITS as nat))
    } else if crate::text::same_ignoring_case(body, "nan"@) {
        Some(Double::not_a_number())
    } else {
        match read_number(body) {
            Some(number) => Some(nearest_double(negative, number)),
            None => None,
        }
    }
}

pub(crate) fn is_digit_char(c: char) -> (digit: bool)
    ensures
        digit == is_digit(c),
{
    let code: u32 = c as u32;
    48 <= code && code <= 57
}

/// Where the digits that start at position `from` end.
fn scan_digits(chars: &Vec<char>, from: usize) -> (end: usize)
    requires
        from <= chars@.len(),
    ensures
        from <= end <= chars@.len(),
        end == digits_end(chars@, from as nat),
        forall|j: int| from <= j < end ==> is_digit(#[trigger] chars@[j]),
{
    let mut i: usize = from;
    while i < chars.len() && is_digit_char(chars[i])
        invariant
            from <= i <= chars@.len(),
            digits_end(chars@, from as nat) == digits_end(chars@, i as nat),
            forall|j: int| from <= j < i ==> is_digit(#[trigger] chars@[j]),
        decreases chars@.len() - i,
    {
        i = i + 1;
    }
    i
}

/// Appends the digits between two positions to a number.
fn append_digits(number: Natural, chars: &Vec<char>, from: usize, to: usize, Ghost(before): Ghost<
    Seq<char>,
>) -> (result: Natural)
    requires
        from <= to <= chars@.len(),
        forall|j: int| from <= j < to ==> is_digit(#[trigger] chars@[j]),
        number@ == digits_value(before),
    ensures
        result@ == digits_value(before + chars@.subrange(from as int, to as int)),
{
    let mut result: Natural = number;
    let mut i: usize = from;
    assert(before + chars@.subrange(from as int, from as int) =~= before);
    while i < to
        invariant
            from <= i <= to <= chars@.len(),
            forall|j: int| from <= j < to ==> is_digit(#[trigger] chars@[j]),
            result@ == digits_value(before + chars@.subrange(from as int, i as int)),
        decreases to - i,
    {
        assert(is_digit(chars@[i as int]));
        let value: u32 = (chars[i] as u32) - 48;
        proof {
            let next: Seq<char> = before + chars@.subrange(from as int, i + 1);
            assert(next.drop_last() =~= before + chars@.subrange(from as int, i as int));
            assert(next.last() == chars@[i as int]);
        }
        result = result.scaled(10, value);
        i = i + 1;
    }
    result
}

proof fn lemma_digits_bound(s: Seq<char>)
    requires
        forall|j: int| 0 <= j < s.len() ==> is_digit(#[trigger] s[j]),
    ensures
        digits_value(s) < pow(10, s.len()),
    decreases s.len(),
{
    if s.len() == 0 {
        lemma_pow0(10);
    } else {
        assert(is_digit(s[s.len() - 1]));
        assert forall|j: int| 0 <= j < s.drop_last().len() implies is_digit(
            #[trigger] s.drop_last()[j],
        ) by {
            assert(is_digit(s[j]));
        }
        lemma_digits_bound(s.drop_last());
        reveal(pow);
    }
}

/// Unsigned decimal text as a machine integer that is at most `max`.
pub fn parse_unsigned(s: &str, max: u64) -> (result: Option<u64>)
    ensures
        match read_unsigned(s@) {
            Some(value) => if value <= max {
                result is Some && result->0 == value
            } else {
                result is None
            },
            None => result is None,
        },
{
    let chars: Vec<char> = characters(s);
    let start: usize = if chars.len() > 0 && chars[0] == '+' { 1 } else { 0 };
    let ghost body: Seq<char> = s@.skip(start as int);
    assert(s@.skip(0) == s@);
    let end: usize = scan_digits(&chars, start);
    proof {
        lemma_digits_end_shift(s@, start as nat, start as nat);
    }
    if start == chars.len() || end != chars.len() {
        return None;
    }
    let mut value: u64 = 0;
    let mut i: usize = start;
    assert(s@.subrange(start as int, start as int) =~= Seq::<char>::empty());
    while i < chars.len()
        invariant
            start <= i <= chars@.len() == end,
            chars@ == s@,
            body == s@.skip(start as int),
            forall|j: int| start <= j < end ==> is_digit(#[trigger] chars@[j]),
            value == digits_value(s@.subrange(start as int, i as int)),
            value <= max,
            read_unsigned(s@) == Some(digits_value(body)),
        decreases chars@.len() - i,
    {
        assert(is_digit(chars@[i as int]));
        let digit: u64 = ((chars[i] as u32) - 48) as u64;
        proof {
            let next: Seq<char> = s@.subrange(start as int, i + 1);
            assert(next.drop_last() =~= s@.subrange(start as int, i as int));
            assert(next.last() == s@[i as int]);
        }
        if digit > max || value > (max - digit) / 10 {
            proof {
                let next: Seq<char> = s@.subrange(start as int, i + 1);
                assert(digits_value(next) > max);
                lemma_digits_monotone(body, i + 1 - start);
                assert(body.take(i + 1 - start) =~= next);
            }
            return None;
        }
        value = value * 10 + digit;
        i = i + 1;
    }
    assert(s@.subrange(start as int, i as int) =~= body);
    Some(value)
}

/// More digits never make a smaller number.
proof fn lemma_digits_monotone(s: Seq<char>, n: int)
    requires
        0 <= n <= s.len(),
    ensures
        digits_value(s.take(n)) <= digits_value(s),
    decreases s.len() - n,
{
    if n == s.len() {
        assert(s.take(n) =~= s);
    } else {
        lemma_digits_monotone(s, n + 1);
        let next: Seq<char> = s.take(n + 1);
        assert(next.drop_last() =~= s.take(n));
    }
}

/// The digits of a suffix end where those of the whole text do.
proof fn lemma_digits_end_shift(s: Seq<char>, start: nat, i: nat)
    requires
        start <= i <= s.len(),
    ensures
        digits_end(s.skip(start as int), (i - start) as nat) + start == digits_end(s, i),
    decreases s.len() - i,
{
    if i < s.len() && is_digit(s[i as int]) {
        lemma_digits_end_shift(s, start, i + 1);
    }
}

/// The quotient and the remainder of numbers whose quotient is below 2^53.
fn divide(num: Natural, den: &Natural) -> (result: (u64, Natural))
    requires
        den@ > 0,
        num@ < den@ * TWO_53,
    ensures
        result.0 == num@ / den@,
        result.1@ == num@ % den@,
        result.0 < TWO_53,
{
    let mut multiples: Vec<Natural> = Vec::new();
    let mut last: Natural = den.scaled(1, 0);
    let mut k: u32 = 0;
    proof {
        crate::double::rounding::lemma_powers();
        lemma_mul_basics(den@ as int);
    }
    while k < 53
        invariant
            k <= 53,
            multiples@.len() == k,
            last@ == den@ * pow2(k as nat),
            forall|j: int|
                0 <= j < k ==> #[trigger] multiples@[j]@ == den@ * pow2(j as nat),
        decreases 53 - k,
    {
        let next: Natural = last.scaled(2, 0);
        proof {
            lemma_pow2_unfold((k + 1) as nat);
            assert((den@ * pow2(k as nat)) * 2 == den@ * (2 * pow2(k as nat))) by (nonlinear_arith);
        }
        multiples.push(last);
        last = next;
        k = k + 1;
    }
    let ghost total: nat = num@;
    let mut rest: Natural = num;
    let mut q: u64 = 0;
    let mut step: u64 = TWO_53;
    proof {
        lemma_mul_basics(den@ as int);
    }
    while k > 0
        invariant
            k <= 53,
            multiples@.len() == 53,
            den@ > 0,
            step == pow2(k as nat),
            q + step <= TWO_53,
            rest@ + q * den@ == total,
            rest@ < den@ * pow2(k as nat),
            pow2(53) == TWO_53,
            pow2(0) == 1,
            forall|j: int|
                0 <= j < 53 ==> #[trigger] multiples@[j]@ == den@ * pow2(j as nat),
        decreases k,
    {
        proof {
            lemma_pow2_unfold(k as nat);
            lemma_pow2_pos((k - 1) as nat);
        }
        k = k - 1;
        step = step / 2;
        let ghost part: int = (den@ * pow2(k as nat)) as int;
        proof {
            assert(den@ * (2 * pow2(k as nat)) == 2 * part) by (nonlinear_arith)
                requires
                    part == den@ * pow2(k as nat),
            ;
            assert((q + step) * den@ == q * den@ + part) by (nonlinear_arith)
                requires
                    part == den@ * step,
            ;
        }
        match rest.minus(&multiples[k as usize]) {
            Some(smaller) => {
                rest = smaller;
                q = q + step;
            },
            None => {},
        }
    }
    proof {
        lemma_mul_basics(den@ as int);
        lemma_fundamental_div_mod_converse(total as int, den@ as int, q as int, rest@ as int);
    }
    (q, rest)
}

/// The bit pattern of the double nearest to a fraction of units.
fn nearest_of(num: Natural, den: Natural) -> (bits: u64)
    requires
        den@ > 0,
    ensures
        bits == crate::double::nearest_bits(num@, den@),
{
    let mut base: Natural = den.scaled(1, 0);
    let mut limit: Natural = den.scaled(0x400_0000, 0).scaled(0x800_0000, 0);
    let mut t: u32 = 0;
    proof {
        crate::double::rounding::lemma_powers();
        lemma_mul_basics(den@ as int);
        assert((den@ * 0x400_0000) * 0x800_0000 == den@ * TWO_53) by (nonlinear_arith);
    }
    while t < 2047 && !num.is_less(&limit)
        invariant
            t <= 2047,
            base@ == den@ * pow2(t as nat),
            limit@ == base@ * TWO_53,
            pow2(53) == TWO_53,
            t > 0 ==> num@ >= den@ * pow2((52 + t) as nat),
        decreases 2047 - t,
    {
        proof {
            lemma_pow2_unfold((t + 1) as nat);
            lemma_pow2_adds(53, t as nat);
            assert((den@ * pow2(t as nat)) * 2 == den@ * (2 * pow2(t as nat))) by (nonlinear_arith);
            assert((den@ * pow2(t as nat)) * TWO_53 == den@ * (TWO_53 * pow2(t as nat)))
                by (nonlinear_arith);
            assert((base@ * TWO_53) * 2 == (base@ * 2) * TWO_53) by (nonlinear_arith);
            assert(52 + (t + 1) == 53 + t);
        }
        base = base.scaled(2, 0);
        limit = limit.scaled(2, 0);
        t = t + 1;
    }
    if t == 2047 {
        proof {
            crate::double::rounding::lemma_excess_bounds(num@, den@);
            let e: nat = crate::double::excess_digits(num@, den@);
            if e < 2047 {
                if 53 + e < 52 + 2047 {
                    lemma_pow2_strictly_increases(53 + e, 52 + 2047);
                }
                assert(den@ * pow2(53 + e) <= den@ * pow2(52 + 2047)) by (nonlinear_arith)
                    requires
                        pow2(53 + e) <= pow2(52 + 2047),
                ;
            }
            assert(e * TWO_52 >= 2047 * TWO_52) by (nonlinear_arith)
                requires
                    e >= 2047,
            ;
        }
        return INFINITY_BITS;
    }
    proof {
        lemma_pow2_adds(53, t as nat);
        lemma_pow2_pos(t as nat);
        assert(den@ * (pow2(53) * pow2(t as nat)) == (den@ * pow2(t as nat)) * TWO_53)
            by (nonlinear_arith)
            requires
                pow2(53) == TWO_53,
        ;
        crate::double::rounding::lemma_excess_unique(num@, den@, t as nat);
        crate::double::rounding::lemma_significand_range(num@, den@);
    }
    let (q, rest): (u64, Natural) = divide(num, &base);
    let twice: Natural = rest.scaled(2, 0);
    let below: bool = twice.is_less(&base);
    let half: bool = !below && !base.is_less(&twice);
    let rounded: u64 = if below || (half && q % 2 == 0) { q } else { q + 1 };
    let bits: u64 = rounded + (t as u64) * TWO_52;
    if bits >= INFINITY_BITS {
        INFINITY_BITS
    } else {
        bits
    }
}

/// A number times ten to a power.
pub(crate) fn times_ten_to(number: Natural, exponent: u128) -> (result: Natural)
    ensures
        result@ == number@ * ten_up(exponent as int),
{
    let ghost start: nat = number@;
    let mut result: Natural = number;
    let mut i: u128 = 0;
    proof {
        lemma_mul_basics(start as int);
        lemma_pow0(10);
    }
    while i < exponent
        invariant
            i <= exponent,
            result@ == start * pow(10, i as nat),
        decreases exponent - i,
    {
        proof {
            reveal(pow);
            lemma_pow_positive(10, i as nat);
            assert(pow(10, (i + 1) as nat) == 10 * pow(10, i as nat));
            assert((start * pow(10, i as nat)) * 10 == start * (10 * pow(10, i as nat)))
                by (nonlinear_arith);
        }
        result = result.scaled(10, 0);
        i = i + 1;
    }
    proof {
        lemma_pow_positive(10, exponent as nat);
    }
    result
}

/// A number times 2^1074.
fn times_one(number: Natural) -> (result: Natural)
    ensures
        result@ == number@ * crate::double::one_units(),
{
    number.shifted(1074)
}

/// Ten is at least eight.
pub proof fn lemma_pow_ten_bound(e: nat)
    ensures
        pow(10, e) >= pow2(3 * e),
        pow(10, e) > 0,
    decreases e,
{
    crate::double::rounding::lemma_powers();
    lemma_pow0(10);
    if e > 0 {
        let k: nat = (e - 1) as nat;
        lemma_pow_ten_bound(k);
        reveal(pow);
        lemma2_to64();
        lemma_pow2_adds(3, 3 * k);
        assert(3 + 3 * k == 3 * e);
    }
}

/// A number of at least 10^400 is beyond the range of doubles.
proof fn lemma_huge(digits: nat, exponent: int)
    requires
        digits > 0,
        exponent > 400,
    ensures
        crate::double::nearest_bits(
            digits * ten_up(exponent) * crate::double::one_units(),
            ten_up(-exponent),
        ) == INFINITY_BITS,
{
    let num: nat = digits * ten_up(exponent) * crate::double::one_units();
    lemma_pow_ten_bound(exponent as nat);
    lemma_pow2_strictly_increases(1026, (3 * exponent) as nat);
    lemma_pow2_pos(1074);
    lemma_pow2_adds(1026, 1074);
    let p: int = ten_up(exponent) as int;
    let one: int = crate::double::one_units() as int;
    assert(digits * p >= p) by (nonlinear_arith)
        requires
            digits >= 1,
            p >= 0,
    ;
    assert((digits * p) * one >= pow2(1026) * one) by (nonlinear_arith)
        requires
            digits * p >= pow2(1026),
            one > 0,
    ;
    assert(num >= pow2(2100));
    crate::double::rounding::lemma_excess_bounds(num, 1);
    let e: nat = crate::double::excess_digits(num, 1);
    if e < 2047 {
        if 53 + e < 2100 {
            lemma_pow2_strictly_increases(53 + e, 2100);
        }
    }
    assert(e * TWO_52 >= 2047 * TWO_52) by (nonlinear_arith)
        requires
            e >= 2047,
    ;
}

/// A number below 10^-400 rounds to zero.
proof fn lemma_tiny(digits: nat, length: nat, exponent: int)
    requires
        digits < pow(10, length),
        exponent + length < -400,
    ensures
        crate::double::nearest_bits(
            digits * ten_up(exponent) * crate::double::one_units(),
            ten_up(-exponent),
        ) == 0,
{
    let e: nat = (-exponent) as nat;
    let rest: nat = (e - length) as nat;
    let one: int = crate::double::one_units() as int;
    lemma_pow_adds(10, length, rest);
    lemma_pow_ten_bound(rest);
    lemma_pow_ten_bound(length);
    lemma_pow2_strictly_increases(1075, 3 * rest);
    lemma_pow2_unfold(1075);
    lemma_pow2_pos(1074);
    let den: int = ten_up(-exponent) as int;
    assert(den == pow(10, length) * pow(10, rest));
    lemma_mul_basics(digits as int);
    let num: int = digits * one;
    assert(2 * num < den) by (nonlinear_arith)
        requires
            num == digits * one,
            digits < pow(10, length),
            2 * one < pow(10, rest),
            one > 0,
            den == pow(10, length) * pow(10, rest),
            digits >= 0,
    ;
    assert(num >= 0) by (nonlinear_arith)
        requires
            num == digits * one,
            digits >= 0,
            one > 0,
    ;
    lemma_fundamental_div_mod_converse(num, den, 0, num);
    crate::double::rounding::lemma_powers();
    lemma_mul_basics(den);
    assert(num < den * TWO_53) by (nonlinear_arith)
        requires
            2 * num < den,
            num >= 0,
            TWO_53 >= 1,
    ;
}

/// A whole number below 2^53 is represented exactly.
pub proof fn lemma_whole_exact(k: nat)
    requires
        k < TWO_53,
    ensures
        Double::whole(false, k).finite(),
        !Double::whole(false, k).negative(),
        Double::whole(false, k).abs_units() == k * crate::double::one_units(),
{
    crate::double::rounding::lemma_representable(k, 1074);
}

/// The largest power of ten that numbers are scaled by in one rounded step.
const SHORT_POWER: i128 = 15;

/// The double nearest to `digits * 10^exponent`, for few digits and a small exponent: both factors
/// are doubles, so that one multiplication or division rounds once.
fn round_short(negative: bool, digits: u64, exponent: i128) -> (number: Double)
    requires
        digits < TWO_53,
        -SHORT_POWER <= exponent <= SHORT_POWER,
    ensures
        number == nearest_double(
            negative,
            Scaled { digits: digits as nat, exponent: exponent as int },
        ),
{
    let size: u32 = if exponent < 0 {
        (-exponent) as u32
    } else {
        exponent as u32
    };
    let power: u128 = power_of_ten(size);
    let ghost one: nat = crate::double::one_units();
    let ghost d: nat = digits as nat;
    let ghost t: nat = power as nat;
    proof {
        lemma_pow_increases(10, size as nat, 15);
        lemma_fifteen();
        lemma_pow0(10);
        lemma_whole_exact(d);
        lemma_whole_exact(t);
        lemma_pow2_pos(1074);
        lemma_mul_strictly_positive(t as int, one as int);
    }
    let a: Double = Double::from_integer(digits as u128);
    let b: Double = Double::from_integer(power);
    if exponent < 0 {
        let quotient: Double = a.over(b);
        proof {
            crate::double::rounding::lemma_nearest_scaled(d * one, t, one);
            lemma_mul_is_commutative((d * one) as int, one as int);
            lemma_mul_is_commutative(t as int, one as int);
            lemma_mul_basics(d as int);
        }
        Double::with_sign(negative, quotient.bits)
    } else {
        let product: Double = a.times(b);
        proof {
            crate::double::rounding::lemma_nearest_scaled((d * t) * one, 1, one);
            assert((d * one) * (t * one) == one * ((d * t) * one)) by (nonlinear_arith);
            lemma_mul_basics(one as int);
            if exponent == 0 {
                lemma_mul_basics(d as int);
            }
        }
        Double::with_sign(negative, product.bits)
    }
}

/// 10^15 is below 2^53.
proof fn lemma_fifteen()
    ensures
        pow(10, 15) == 1_000_000_000_000_000,
{
    reveal_with_fuel(pow, 16);
}

/// The double nearest to `digits * 10^exponent`, where `digits` has at most `length` digits.
pub(crate) fn round_scaled(negative: bool, digits: Natural, length: u128, exponent: i128) -> (number: Double)
    requires
        digits@ < pow(10, length as nat),
        length < 0x1_0000_0000_0000_0000_0000_0000,
        -0x1_0000_0000_0000_0000_0000_0000 < exponent < 0x1_0000_0000_0000_0000_0000_0000,
    ensures
        number == nearest_double(negative, Scaled { digits: digits@, exponent: exponent as int }),
{
    let ghost value: nat = digits@;
    let is_zero: bool = digits.is_less(&Natural::from_small(1));
    if is_zero {
        proof {
            lemma_mul_basics(ten_up(exponent as int) as int);
            lemma_mul_basics(crate::double::one_units() as int);
            if exponent < 0 {
                lemma_pow_ten_bound((-exponent) as nat);
            }
            let den: int = ten_up(-exponent as int) as int;
            lemma_fundamental_div_mod_converse(0, den, 0, 0);
            crate::double::rounding::lemma_powers();
            lemma_mul_basics(den);
            lemma_mul_strictly_positive(den, TWO_53 as int);
        }
        return Double::with_sign(negative, 0);
    }
    if -SHORT_POWER <= exponent && exponent <= SHORT_POWER {
        match digits.to_small() {
            Some(small) => {
                if small < TWO_53 {
                    return round_short(negative, small, exponent);
                }
            },
            None => {},
        }
    }
    if exponent > 400 {
        proof {
            lemma_huge(value, exponent as int);
        }
        return Double::with_sign(negative, INFINITY_BITS);
    }
    if exponent + (length as i128) < -400 {
        proof {
            lemma_tiny(value, length as nat, exponent as int);
        }
        return Double::with_sign(negative, 0);
    }
    let up: u128 = if exponent > 0 { exponent as u128 } else { 0 };
    let down: u128 = if exponent < 0 { (-exponent) as u128 } else { 0 };
    let num: Natural = times_one(times_ten_to(digits, up));
    let den: Natural = times_ten_to(Natural::from_small(1), down);
    proof {
        lemma_mul_basics(ten_up(down as int) as int);
        if exponent < 0 {
            lemma_pow_ten_bound(down as nat);
        }
    }
    let bits: u64 = nearest_of(num, den);
    Double::with_sign(negative, bits)
}

/// The double nearest to a power of ten.
pub fn power_as_double(exponent: u8) -> (number: Double)
    ensures
        number == Double::whole(false, pow(10, exponent as nat) as nat),
{
    proof {
        lemma_pow0(10);
        lemma_pow1(10);
        lemma_pow_positive(10, exponent as nat);
        lemma_mul_basics(ten_up(exponent as int) as int);
    }
    round_scaled(false, Natural::from_small(1), 1, exponent as i128)
}

/// An exponent beyond which every nonzero number is infinite, or rounds to zero.
const EXPONENT_CAP: i128 = 1_000_000_000_000_000_000_000_000_000;

/// The exponent after a number's digits, with its sign; one beyond the cap may come out as any
/// other one beyond it.
fn parse_exponent(chars: &Vec<char>, from: usize) -> (result: Option<i128>)
    requires
        from <= chars@.len(),
    ensures
        match read_signed(chars@.skip(from as int)) {
            Some(exponent) => {
                &&& result is Some
                &&& result->0 == exponent || (exponent > EXPONENT_CAP
                    && result->0 > EXPONENT_CAP) || (exponent
                    < -EXPONENT_CAP && result->0
                    < -EXPONENT_CAP)
                &&& -20 * EXPONENT_CAP < result->0 < 20 * EXPONENT_CAP
            },
            None => result is None,
        },
{
    let ghost body: Seq<char> = chars@.skip(from as int);
    let negative: bool = from < chars.len() && chars[from] == '-';
    let start: usize = if from < chars.len() && (chars[from] == '-' || chars[from] == '+') {
        from + 1
    } else {
        from
    };
    let end: usize = scan_digits(chars, start);
    let ghost digits: Seq<char> = chars@.skip(start as int);
    proof {
        lemma_digits_end_shift(chars@, start as nat, start as nat);
        if start == from + 1 {
            assert(body.skip(1) =~= digits);
            assert(body[0] == chars@[from as int]);
        } else {
            assert(body =~= digits);
            if from < chars@.len() {
                assert(body[0] == chars@[from as int]);
            }
        }
        assert(digits.len() == chars@.len() - start);
    }
    if start == chars.len() || end != chars.len() {
        assert(read_natural(digits) is None);
        return None;
    }
    let mut value: i128 = 0;
    let mut i: usize = start;
    assert(chars@.subrange(start as int, start as int) =~= Seq::<char>::empty());
    while i < chars.len()
        invariant
            start <= i <= chars@.len() == end,
            forall|j: int| start <= j < end ==> is_digit(#[trigger] chars@[j]),
            0 <= value < 20 * EXPONENT_CAP,
            value == digits_value(chars@.subrange(start as int, i as int)) || (value
                > EXPONENT_CAP && digits_value(
                chars@.subrange(start as int, i as int),
            ) > EXPONENT_CAP),
        decreases chars@.len() - i,
    {
        assert(is_digit(chars@[i as int]));
        let digit: i128 = ((chars[i] as u32) - 48) as i128;
        proof {
            let next: Seq<char> = chars@.subrange(start as int, i + 1);
            assert(next.drop_last() =~= chars@.subrange(start as int, i as int));
            assert(next.last() == chars@[i as int]);
        }
        if value <= EXPONENT_CAP {
            value = value * 10 + digit;
        }
        i = i + 1;
    }
    assert(chars@.subrange(start as int, i as int) =~= digits);
    assert(read_natural(digits) == Some(digits_value(digits)));
    if negative {
        Some(-value)
    } else {
        Some(value)
    }
}

/// Two exponents beyond the range of doubles on the same side round alike.
proof fn lemma_exponent_out_of_range(digits: nat, length: nat, a: int, b: int)
    requires
        digits < pow(10, length),
        (a > 400 && b > 400) || (a + length < -400 && b + length < -400),
    ensures
        crate::double::nearest_bits(
            digits * ten_up(a) * crate::double::one_units(),
            ten_up(-a),
        ) == crate::double::nearest_bits(
            digits * ten_up(b) * crate::double::one_units(),
            ten_up(-b),
        ),
{
    if a > 400 {
        if digits > 0 {
            lemma_huge(digits, a);
            lemma_huge(digits, b);
        } else {
            lemma_mul_basics(ten_up(a) as int);
            lemma_mul_basics(ten_up(b) as int);
            lemma_mul_basics(crate::double::one_units() as int);
        }
    } else {
        lemma_tiny(digits, length, a);
        lemma_tiny(digits, length, b);
    }
}

/// The digits of a number in text.
struct Scan {
    number: Natural,
    length: u128,
    fraction: u64,
    end: usize,
}

/// Reads the digits, with the decimal point among them, from position `from` on.
fn scan_number(chars: &Vec<char>, from: usize) -> (scan: Scan)
    requires
        from <= chars@.len(),
    ensures
        ({
            let body: Seq<char> = chars@.skip(from as int);
            &&& from <= scan.end <= chars@.len()
            &&& scan.end == from + number_end(body)
            &&& scan.number@ == digits_value(number_digits(body))
            &&& scan.length == number_digits(body).len()
            &&& scan.length < 0x2_0000_0000_0000_0000
            &&& scan.fraction == fraction_digits(body).len()
            &&& scan.number@ < pow(10, scan.length as nat)
        }),
{
    let ghost body: Seq<char> = chars@.skip(from as int);
    let whole_end: usize = scan_digits(chars, from);
    let point: bool = whole_end < chars.len() && chars[whole_end] == '.';
    let fraction_start: usize = if point { whole_end + 1 } else { whole_end };
    let end: usize = if point { scan_digits(chars, fraction_start) } else { whole_end };
    let whole_length: u64 = (whole_end - from) as u64;
    let fraction: u64 = (end - fraction_start) as u64;
    let ghost first: Seq<char> = chars@.subrange(from as int, whole_end as int);
    let ghost second: Seq<char> = chars@.subrange(fraction_start as int, end as int);
    proof {
        lemma_digits_end_shift(chars@, from as nat, from as nat);
        assert(body.take(whole_end - from) =~= first);
        if whole_end < chars@.len() {
            assert(body[whole_end - from] == chars@[whole_end as int]);
        }
        assert(point == has_point(body));
        if point {
            lemma_digits_end_shift(chars@, from as nat, fraction_start as nat);
            assert(body.subrange(whole_end - from + 1, end - from) =~= second);
        } else {
            assert(second =~= Seq::<char>::empty());
        }
        assert(fraction_digits(body) == second);
        let digits: Seq<char> = number_digits(body);
        assert(digits == first + second);
        assert forall|j: int| 0 <= j < digits.len() implies is_digit(#[trigger] digits[j]) by {
            if j < whole_end - from {
                assert(is_digit(chars@[from + j]));
            } else {
                assert(is_digit(chars@[fraction_start + (j - (whole_end - from))]));
            }
        }
        lemma_digits_bound(digits);
        assert(Seq::<char>::empty() + first =~= first);
    }
    let number: Natural = append_digits(
        Natural::zero(),
        chars,
        from,
        whole_end,
        Ghost(Seq::<char>::empty()),
    );
    let number: Natural = append_digits(number, chars, fraction_start, end, Ghost(first));
    Scan { number, length: (whole_length as u128) + (fraction as u128), fraction, end }
}

/// A number, from position `from` to the end.
fn parse_number(negative: bool, chars: &Vec<char>, from: usize) -> (result: Option<Double>)
    requires
        from <= chars@.len(),
    ensures
        match read_number(chars@.skip(from as int)) {
            Some(number) => result == Some(nearest_double(negative, number)),
            None => result is None,
        },
{
    let ghost body: Seq<char> = chars@.skip(from as int);
    let scan: Scan = scan_number(chars, from);
    if scan.length == 0 {
        return None;
    }
    if scan.end == chars.len() {
        let exponent: i128 = -(scan.fraction as i128);
        return Some(round_scaled(negative, scan.number, scan.length, exponent));
    }
    assert(body[scan.end - from] == chars@[scan.end as int]);
    if chars[scan.end] != 'e' && chars[scan.end] != 'E' {
        return None;
    }
    assert(body.skip(scan.end - from + 1) =~= chars@.skip(scan.end + 1));
    match parse_exponent(chars, scan.end + 1) {
        Some(exponent) => {
            let total: i128 = exponent - (scan.fraction as i128);
            proof {
                let actual: int = read_signed(chars@.skip(scan.end + 1))->0 - scan.fraction;
                if actual != total {
                    lemma_exponent_out_of_range(
                        scan.number@,
                        scan.length as nat,
                        actual,
                        total as int,
                    );
                }
            }
            Some(round_scaled(negative, scan.number, scan.length, total))
        },
        None => None,
    }
}

/// The double that a decimal text stands for.
pub fn parse_double(s: &str) -> (result: Option<Double>)
    ensures
        result == read_double(s@),
{
    let chars: Vec<char> = characters(s);
    let negative: bool = chars.len() > 0 && chars[0] == '-';
    let start: usize = if chars.len() > 0 && (chars[0] == '-' || chars[0] == '+') { 1 } else { 0 };
    assert(s@.subrange(start as int, s@.len() as int) =~= s@.skip(start as int));
    assert(s@.skip(0) =~= s@);
    let body: &str = s.substring_char(start, chars.len());
    if eq_ignore_case(body, "inf") || eq_ignore_case(body, "infinity") {
        return Some(Double::with_sign(negative, INFINITY_BITS));
    }
    if eq_ignore_case(body, "nan") {
        return Some(Double { bits: NAN_BITS });
    }
    parse_number(negative, &chars, start)
}

/// The largest power of ten that 128 bits hold.
pub const MAX_POWER: u32 = 38;

/// The largest power of ten that 128 bits hold, written out.
pub proof fn lemma_largest_power()
    ensures
        pow(10, 38) == 100_000_000_000_000_000_000_000_000_000_000_000_000,
{
    reveal_with_fuel(pow, 20);
    assert(pow(10, 19) == 10_000_000_000_000_000_000);
    lemma_pow_adds(10, 19, 19);
}

/// Ten to a power that 128 bits hold.
pub fn power_of_ten(exponent: u32) -> (power: u128)
    requires
        exponent <= MAX_POWER,
    ensures
        power == pow(10, exponent as nat),
        power > 0,
{
    let mut power: u128 = 1;
    let mut i: u32 = 0;
    proof {
        lemma_pow0(10);
        lemma_largest_power();
    }
    while i < exponent
        invariant
            i <= exponent <= 38,
            power == pow(10, i as nat),
            power > 0,
            pow(10, 38) == 100_000_000_000_000_000_000_000_000_000_000_000_000,
        decreases exponent - i,
    {
        proof {
            reveal_with_fuel(pow, 2);
            lemma_pow_increases(10, (i + 1) as nat, 38);
        }
        power = power * 10;
        i = i + 1;
    }
    power
}

/// The character of a decimal digit.
pub open spec fn digit_char(d: nat) -> char {
    (48 + d) as char
}

/// The decimal digits of a number, without leading zeros.
pub open spec fn printed(n: nat) -> Seq<char>
    decreases n,
{
    if n < 10 {
        seq![digit_char(n)]
    } else {
        printed(n / 10).push(digit_char(n % 10))
    }
}

pub(crate) fn digit_text(d: u64) -> (text: &'static str)
    requires
        d < 10,
    ensures
        text@ == seq![digit_char(d as nat)],
{
    if d == 0 {
        proof {
            reveal_strlit("0");
        }
        assert("0"@ =~= seq!['0']);
        return "0";
    }
    if d == 1 {
        proof {
            reveal_strlit("1");
        }
        assert("1"@ =~= seq!['1']);
        return "1";
    }
    if d == 2 {
        proof {
            reveal_strlit("2");
        }
        assert("2"@ =~= seq!['2']);
        return "2";
    }
    if d == 3 {
        proof {
            reveal_strlit("3");
        }
        assert("3"@ =~= seq!['3']);
        return "3";
    }
    if d == 4 {
        proof {
            reveal_strlit("4");
        }
        assert("4"@ =~= seq!['4']);
        return "4";
    }
    if d == 5 {
        proof {
            reveal_strlit("5");
        }
        assert("5"@ =~= seq!['5']);
        return "5";
    }
    if d == 6 {
        proof {
            reveal_strlit("6");
        }
        assert("6"@ =~= seq!['6']);
        return "6";
    }
    if d == 7 {
        proof {
            reveal_strlit("7");
        }
        assert("7"@ =~= seq!['7']);
        return "7";
    }
    if d == 8 {
        proof {
            reveal_strlit("8");
        }
        assert("8"@ =~= seq!['8']);
        return "8";
    }
    proof {
        reveal_strlit("9");
    }
    assert("9"@ =~= seq!['9']);
    "9"
}

/// A number in decimal digits.
pub fn print_unsigned(n: u64) -> (text: String)
    ensures
        text@ == printed(n as nat),
    decreases n,
{
    if n < 10 {
        digit_text(n).to_owned()
    } else {
        let front: String = print_unsigned(n / 10);
        let text: String = join(front.as_str(), digit_text(n % 10));
        assert(text@ =~= printed((n / 10) as nat).push(digit_char((n % 10) as nat)));
        text
    }
}

} // verus!
