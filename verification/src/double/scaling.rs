//! Rounding a fraction scaled by a power of two, on machine integers.
use vstd::arithmetic::div_mod::*;
use vstd::arithmetic::mul::*;
use vstd::arithmetic::power2::*;
use vstd::prelude::*;

use crate::double::{INFINITY_BITS, TWO_52, TWO_53};

verus! {

/// Two to the power of the positive part of `e`.
pub open spec fn up(e: int) -> nat {
    if e > 0 {
        pow2(e as nat)
    } else {
        1
    }
}

/// Some large powers of two as literals.
pub proof fn lemma_pow2_128()
    ensures
        pow2(63) == 0x8000_0000_0000_0000,
        pow2(64) == 0x1_0000_0000_0000_0000,
        pow2(117) == pow2(53) * pow2(64),
        pow2(126) == 0x4000_0000_0000_0000_0000_0000_0000_0000,
        pow2(127) == 0x8000_0000_0000_0000_0000_0000_0000_0000,
        pow2(128) == 0x1_0000_0000_0000_0000_0000_0000_0000_0000,
{
    lemma2_to64();
    lemma2_to64_rest();
    lemma_pow2_adds(53, 64);
    lemma_pow2_adds(63, 63);
    lemma_pow2_adds(63, 64);
    lemma_pow2_adds(64, 64);
}

proof fn lemma_pow2_ordered(a: nat, b: nat)
    requires
        a <= b,
    ensures
        pow2(a) <= pow2(b),
{
    if a < b {
        lemma_pow2_strictly_increases(a, b);
    }
}

/// Two to the power `e`.
pub fn power_of_two(e: u32) -> (p: u128)
    requires
        e < 128,
    ensures
        p == pow2(e as nat),
{
    let mut p: u128 = 1;
    let mut i: u32 = 0;
    proof {
        crate::double::rounding::lemma_powers();
        lemma_pow2_128();
    }
    while i < e
        invariant
            i <= e < 128,
            p == pow2(i as nat),
            pow2(127) == 0x8000_0000_0000_0000_0000_0000_0000_0000,
        decreases e - i,
    {
        proof {
            lemma_pow2_unfold((i + 1) as nat);
            lemma_pow2_ordered((i + 1) as nat, 127);
        }
        p = p * 2;
        i = i + 1;
    }
    p
}

/// The number of binary digits of `n`.
pub fn binary_digits(n: u128) -> (count: u32)
    ensures
        count <= 128,
        n < pow2(count as nat),
        count > 0 ==> n >= pow2((count - 1) as nat),
        n > 0 ==> count > 0,
{
    let mut rest: u128 = n;
    let mut count: u32 = 0;
    proof {
        crate::double::rounding::lemma_powers();
        lemma_pow2_128();
        assert((n + 1) * pow2(0) == n + 1) by (nonlinear_arith)
            requires
                pow2(0) == 1,
        ;
        assert(n * pow2(0) == n) by (nonlinear_arith)
            requires
                pow2(0) == 1,
        ;
    }
    while rest > 0
        invariant
            count <= 128,
            rest * pow2(count as nat) <= n < (rest + 1) * pow2(count as nat),
            count > 0 && rest == 0 ==> n >= pow2((count - 1) as nat),
            n > 0 ==> count > 0 || rest > 0,
            pow2(128) == 0x1_0000_0000_0000_0000_0000_0000_0000_0000,
        decreases rest,
    {
        let half: u128 = rest / 2;
        proof {
            let p: int = pow2(count as nat) as int;
            lemma_pow2_pos(count as nat);
            lemma_pow2_unfold((count + 1) as nat);
            assert(rest * p >= p) by (nonlinear_arith)
                requires
                    rest >= 1,
                    p > 0,
            ;
            if count >= 128 {
                lemma_pow2_ordered(128, count as nat);
            }
            assert(half * (2 * p) <= rest * p) by (nonlinear_arith)
                requires
                    2 * half <= rest,
                    p > 0,
            ;
            assert((rest + 1) * p <= (half + 1) * (2 * p)) by (nonlinear_arith)
                requires
                    rest + 1 <= 2 * (half + 1),
                    p > 0,
            ;
        }
        rest = half;
        count = count + 1;
    }
    proof {
        lemma_mul_basics(pow2(count as nat) as int);
    }
    count
}

/// The quotient of `n * 2^e` by `d`, with the remainder's place relative to one half: below,
/// at, or above.
fn scaled_quotient(n: u128, d: u64, e: i32) -> (result: (u64, bool, bool))
    requires
        d > 0,
        -8000 <= e <= 8000,
        n < 0x4000_0000_0000_0000_0000_0000_0000_0000 || (d == 1 && e >= -76),
        n * up(e as int) < (d * up(-e as int)) * TWO_53,
    ensures
        ({
            let num: nat = (n * up(e as int)) as nat;
            let den: nat = (d * up(-e as int)) as nat;
            &&& den > 0
            &&& result.0 == num / den
            &&& result.0 < TWO_53
            &&& result.1 == (2 * (num % den) < den)
            &&& result.2 == (2 * (num % den) == den)
        }),
{
    proof {
        crate::double::rounding::lemma_powers();
        lemma_pow2_128();
        if e > 0 {
            lemma_pow2_pos(e as nat);
        }
        if e < 0 {
            lemma_pow2_pos((-e) as nat);
        }
        let u: nat = up(-e as int);
        assert(d * u > 0) by (nonlinear_arith)
            requires
                d > 0,
                u > 0,
        ;
        lemma_mul_basics(d as int);
        lemma_mul_basics(n as int);
    }
    let ghost num: nat = (n * up(e as int)) as nat;
    let ghost den: nat = (d * up(-e as int)) as nat;
    if n == 0 {
        proof {
            lemma_mul_basics(up(e as int) as int);
            assert(num == 0);
            lemma_fundamental_div_mod_converse(0, den as int, 0, 0);
        }
        return (0, true, false);
    }
    let divisor: u128;
    let dividend: u128;
    if e >= 0 {
        proof {
            assert(d * TWO_53 < pow2(117)) by (nonlinear_arith)
                requires
                    d < pow2(64),
                    TWO_53 == pow2(53),
                    pow2(117) == pow2(53) * pow2(64),
                    pow2(53) > 0,
            ;
            assert(up(e as int) <= n * up(e as int)) by (nonlinear_arith)
                requires
                    n >= 1,
            ;
            if e >= 117 {
                lemma_pow2_ordered(117, e as nat);
            }
            lemma_pow2_ordered(117, 127);
        }
        let p: u128 = power_of_two(e as u32);
        assert(p == up(e as int));
        dividend = n * p;
        divisor = d as u128;
    } else {
        let k: u32 = (-e) as u32;
        let size: u32 = binary_digits(d as u128);
        if size + k > 127 {
            proof {
                let low: nat = pow2((size - 1) as nat);
                lemma_pow2_adds((size - 1) as nat, k as nat);
                assert(d * pow2(k as nat) >= low * pow2(k as nat)) by (nonlinear_arith)
                    requires
                        d >= low,
                ;
                lemma_pow2_ordered(127, (size - 1 + k) as nat);
                if size > 64 {
                    lemma_pow2_ordered(64, (size - 1) as nat);
                }
                if d == 1 && size > 1 {
                    lemma_pow2_ordered(1, (size - 1) as nat);
                }
                assert(2 * n < den);
                lemma_fundamental_div_mod_converse(num as int, den as int, 0, n as int);
            }
            return (0, true, false);
        }
        proof {
            lemma_pow2_adds(size as nat, k as nat);
            assert(d * pow2(k as nat) < pow2(size as nat) * pow2(k as nat)) by (nonlinear_arith)
                requires
                    d < pow2(size as nat),
                    pow2(k as nat) > 0,
            ;
            lemma_pow2_ordered((size + k) as nat, 127);
        }
        let p: u128 = power_of_two(k);
        assert(p == up(-e as int));
        dividend = n;
        divisor = (d as u128) * p;
    }
    assert(dividend == num && divisor == den);
    let q: u128 = dividend / divisor;
    let r: u128 = dividend % divisor;
    proof {
        lemma_fundamental_div_mod(num as int, den as int);
        lemma_mod_bound(num as int, den as int);
        let qi: int = q as int;
        let ri: int = r as int;
        assert(qi < TWO_53) by (nonlinear_arith)
            requires
                den * qi + ri < den * TWO_53,
                ri >= 0,
                den > 0,
        ;
    }
    (q as u64, r < divisor - r, r == divisor - r)
}

/// A fraction written as powers of two on one side, and the same fraction with the exponent
/// lowered by `t`, differ by a common factor.
pub proof fn lemma_common_factor(n: nat, d: nat, s: int, t: nat) -> (k: nat)
    ensures
        k > 0,
        n * up(s) == k * (n * up(s - t)),
        (d * up(-s)) * pow2(t) == k * (d * up(t - s)),
{
    crate::double::rounding::lemma_powers();
    lemma_pow2_pos(t);
    lemma_mul_basics(n as int);
    lemma_mul_basics(d as int);
    if s - t >= 0 {
        let e: nat = (s - t) as nat;
        lemma_pow2_adds(e, t);
        lemma_mul_basics(pow2(t) as int);
        assert(up(s) == pow2(e) * pow2(t));
        assert(up(s - t) == pow2(e));
        assert(n * (pow2(e) * pow2(t)) == pow2(t) * (n * pow2(e))) by (nonlinear_arith);
        assert(d * pow2(t) == pow2(t) * d) by (nonlinear_arith);
        pow2(t)
    } else if s >= 0 {
        let e: nat = (t - s) as nat;
        lemma_pow2_adds(e, s as nat);
        lemma_pow2_pos(s as nat);
        lemma_mul_basics(pow2(e) as int);
        assert(up(s) == pow2(s as nat));
        assert(n * pow2(s as nat) == pow2(s as nat) * n) by (nonlinear_arith);
        assert(d * (pow2(e) * pow2(s as nat)) == pow2(s as nat) * (d * pow2(e)))
            by (nonlinear_arith);
        pow2(s as nat)
    } else {
        let e: nat = (-s) as nat;
        lemma_pow2_adds(e, t);
        assert((d * pow2(e)) * pow2(t) == d * (pow2(e) * pow2(t))) by (nonlinear_arith);
        lemma_mul_basics((d * pow2(e + t)) as int);
        1
    }
}

/// `n < 2^a` and `d >= 2^b` bound the fraction from above.
proof fn lemma_upper_bound(n: nat, d: nat, s: int, a: nat, b: nat, t: nat)
    requires
        n < pow2(a),
        d >= pow2(b),
        d > 0,
        a + s - b <= 53 + t,
    ensures
        n * up(s) < (d * up(-s)) * pow2(53 + t),
{
    crate::double::rounding::lemma_powers();
    lemma_mul_basics(n as int);
    lemma_mul_basics(d as int);
    lemma_pow2_pos(a);
    lemma_pow2_pos(b);
    if s >= 0 {
        let e: nat = s as nat;
        lemma_pow2_pos(e);
        lemma_pow2_adds(a, e);
        lemma_pow2_adds(b, 53 + t);
        lemma_pow2_ordered(a + e, b + 53 + t);
        assert(n * pow2(e) < pow2(a) * pow2(e)) by (nonlinear_arith)
            requires
                n < pow2(a),
                pow2(e) > 0,
        ;
        assert(pow2(b) * pow2(53 + t) <= d * pow2(53 + t)) by (nonlinear_arith)
            requires
                pow2(b) <= d,
        ;
    } else {
        let e: nat = (-s) as nat;
        lemma_pow2_adds(b, e);
        lemma_pow2_adds(b + e, 53 + t);
        lemma_pow2_ordered(a, b + e + 53 + t);
        assert((d * pow2(e)) * pow2(53 + t) >= (pow2(b) * pow2(e)) * pow2(53 + t))
            by (nonlinear_arith)
            requires
                pow2(b) <= d,
        ;
    }
}

/// `n >= 2^a` and `d <= 2^b` bound the fraction from below.
proof fn lemma_lower_bound(n: nat, d: nat, s: int, a: nat, b: nat, t: nat)
    requires
        n >= pow2(a),
        d <= pow2(b),
        a + s - b >= t,
    ensures
        n * up(s) >= (d * up(-s)) * pow2(t),
{
    crate::double::rounding::lemma_powers();
    lemma_mul_basics(n as int);
    lemma_mul_basics(d as int);
    if s >= 0 {
        let e: nat = s as nat;
        lemma_pow2_adds(a, e);
        lemma_pow2_adds(b, t);
        lemma_pow2_ordered(b + t, a + e);
        assert(n * pow2(e) >= pow2(a) * pow2(e)) by (nonlinear_arith)
            requires
                n >= pow2(a),
        ;
        assert(pow2(b) * pow2(t) >= d * pow2(t)) by (nonlinear_arith)
            requires
                pow2(b) >= d,
        ;
    } else {
        let e: nat = (-s) as nat;
        lemma_pow2_adds(b, e);
        lemma_pow2_adds(b + e, t);
        lemma_pow2_ordered(b + e + t, a);
        assert((d * pow2(e)) * pow2(t) <= (pow2(b) * pow2(e)) * pow2(t)) by (nonlinear_arith)
            requires
                pow2(b) >= d,
        ;
    }
}

/// The bit pattern of the double nearest to `n / d * 2^s` units.
pub fn round_ratio(n: u128, d: u64, s: i32) -> (bits: u64)
    requires
        d > 0,
        -3500 <= s <= 3500,
        n < 0x4000_0000_0000_0000_0000_0000_0000_0000 || (d == 1 && s >= 0),
    ensures
        d * up(-s as int) > 0,
        bits == crate::double::nearest_bits(
            (n * up(s as int)) as nat,
            (d * up(-s as int)) as nat,
        ),
{
    let ghost num: nat = (n * up(s as int)) as nat;
    let ghost den: nat = (d * up(-s as int)) as nat;
    proof {
        crate::double::rounding::lemma_powers();
        lemma_pow2_128();
        if s < 0 {
            lemma_pow2_pos((-s) as nat);
        }
        let u: nat = up(-s as int);
        assert(d * u > 0) by (nonlinear_arith)
            requires
                d > 0,
                u > 0,
        ;
    }
    if n == 0 {
        proof {
            lemma_mul_basics(up(s as int) as int);
            lemma_mul_basics(den as int);
            lemma_mul_strictly_positive(den as int, TWO_53 as int);
            lemma_fundamental_div_mod_converse(0, den as int, 0, 0);
        }
        return 0;
    }
    let ln: u32 = binary_digits(n);
    let ld: u32 = binary_digits(d as u128);
    let estimate: i32 = (ln as i32) - (ld as i32) + s - 52;
    let mut t: u32 = if estimate > 0 { estimate as u32 } else { 0 };
    proof {
        lemma_upper_bound(
            n as nat,
            d as nat,
            s as int,
            ln as nat,
            (ld - 1) as nat,
            t as nat,
        );
    }
    let mut part: (u64, bool, bool) = significand(n, d, s, t);
    if t > 0 && part.0 < TWO_52 {
        t = t - 1;
        proof {
            lemma_pow2_adds(52, (t + 1) as nat);
            lemma_quotient_below(num, den * pow2((t + 1) as nat), TWO_52 as nat);
            assert((den * pow2((t + 1) as nat)) * TWO_52 == den * (pow2(52) * pow2((t + 1) as nat)))
                by (nonlinear_arith)
                requires
                    pow2(52) == TWO_52,
            ;
            assert(52 + (t + 1) == 53 + t);
            lemma_lower_bound(
                n as nat,
                d as nat,
                s as int,
                (ln - 1) as nat,
                ld as nat,
                (52 + t) as nat,
            );
        }
        part = significand(n, d, s, t);
    } else {
        proof {
            if t > 0 {
                lemma_pow2_adds(52, t as nat);
                lemma_quotient_at_least(num, den * pow2(t as nat), TWO_52 as nat);
                assert((den * pow2(t as nat)) * TWO_52 == den * (pow2(52) * pow2(t as nat)))
                    by (nonlinear_arith)
                    requires
                        pow2(52) == TWO_52,
                ;
            }
        }
    }
    proof {
        assert(t > 0 ==> num >= den * pow2((52 + t) as nat));
        crate::double::rounding::lemma_excess_unique(num, den, t as nat);
        crate::double::rounding::lemma_significand_range(num, den);
    }
    let (q, below, half): (u64, bool, bool) = part;
    let rounded: u64 = if below || (half && q % 2 == 0) { q } else { q + 1 };
    assert(rounded == crate::double::round_half_even(num, den * pow2(t as nat)));
    if t >= 2047 {
        return INFINITY_BITS;
    }
    let bits: u64 = rounded + (t as u64) * TWO_52;
    if bits >= INFINITY_BITS {
        INFINITY_BITS
    } else {
        bits
    }
}

proof fn lemma_quotient_below(n: nat, d: nat, bound: nat)
    requires
        d > 0,
        n / d < bound,
    ensures
        n < d * bound,
{
    lemma_fundamental_div_mod(n as int, d as int);
    lemma_mod_bound(n as int, d as int);
    let q: int = (n / d) as int;
    assert(d * q + d <= d * bound) by (nonlinear_arith)
        requires
            q + 1 <= bound,
    ;
}

proof fn lemma_quotient_at_least(n: nat, d: nat, bound: nat)
    requires
        d > 0,
        n / d >= bound,
    ensures
        n >= d * bound,
{
    lemma_fundamental_div_mod(n as int, d as int);
    lemma_mod_bound(n as int, d as int);
    let q: int = (n / d) as int;
    assert(d * q >= d * bound) by (nonlinear_arith)
        requires
            q >= bound,
    ;
}

/// The quotient of `n / d * 2^s` by `2^t`, with the remainder's place relative to one half.
fn significand(n: u128, d: u64, s: i32, t: u32) -> (result: (u64, bool, bool))
    requires
        d > 0,
        -4000 <= s <= 4000,
        t <= 4000,
        n < 0x4000_0000_0000_0000_0000_0000_0000_0000 || (d == 1 && s - t >= -76),
        n * up(s as int) < (d * up(-s as int)) * pow2((53 + t) as nat),
    ensures
        ({
            let num: nat = (n * up(s as int)) as nat;
            let den: nat = ((d * up(-s as int)) * pow2(t as nat)) as nat;
            &&& den > 0
            &&& result.0 == num / den
            &&& result.0 < TWO_53
            &&& result.1 == (2 * (num % den) < den)
            &&& result.2 == (2 * (num % den) == den)
        }),
{
    let e: i32 = s - (t as i32);
    let ghost num: nat = (n * up(e as int)) as nat;
    let ghost den: nat = (d * up(-e as int)) as nat;
    let ghost k: nat = lemma_common_factor(n as nat, d as nat, s as int, t as nat);
    proof {
        crate::double::rounding::lemma_powers();
        lemma_pow2_adds(53, t as nat);
        let base: nat = (d * up(-s as int)) as nat;
        assert(base * (pow2(53) * pow2(t as nat)) == (base * pow2(t as nat)) * TWO_53)
            by (nonlinear_arith)
            requires
                pow2(53) == TWO_53,
        ;
        assert(num < den * TWO_53) by (nonlinear_arith)
            requires
                k * num < (k * den) * TWO_53,
                k > 0,
        ;
    }
    let result: (u64, bool, bool) = scaled_quotient(n, d, e);
    proof {
        lemma_scaled_division(num, den, k);
    }
    result
}

/// A common factor leaves the quotient and scales the remainder.
proof fn lemma_scaled_division(num: nat, den: nat, k: nat)
    requires
        den > 0,
        k > 0,
    ensures
        k * den > 0,
        (k * num) / (k * den) == num / den,
        (2 * ((k * num) % (k * den)) < k * den) == (2 * (num % den) < den),
        (2 * ((k * num) % (k * den)) == k * den) == (2 * (num % den) == den),
{
    let q: int = (num / den) as int;
    let r: int = (num % den) as int;
    lemma_fundamental_div_mod(num as int, den as int);
    lemma_mod_bound(num as int, den as int);
    assert(k * den > 0) by (nonlinear_arith)
        requires
            k > 0,
            den > 0,
    ;
    assert(k * num == q * (k * den) + k * r) by (nonlinear_arith)
        requires
            num == den * q + r,
    ;
    assert(0 <= k * r < k * den) by (nonlinear_arith)
        requires
            k > 0,
            0 <= r < den,
    ;
    lemma_fundamental_div_mod_converse((k * num) as int, (k * den) as int, q, k * r);
    assert((2 * (k * r) < k * den) == (2 * r < den)) by (nonlinear_arith)
        requires
            k > 0,
    ;
    assert((2 * (k * r) == k * den) == (2 * r == den)) by (nonlinear_arith)
        requires
            k > 0,
    ;
}

} // verus!
