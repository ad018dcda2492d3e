//! The decimal magnitude of a number: between which powers of ten it lies.
use vstd::arithmetic::mul::*;
use vstd::arithmetic::power::*;
use vstd::arithmetic::power2::*;
use vstd::prelude::*;

use crate::bignum::Natural;
use crate::double::arithmetic::Parts;
use crate::double::Double;

verus! {

/// A number of `units` lies at or above ten to the power of `m`, and below the next power.
pub open spec fn of_magnitude(units: nat, m: int) -> bool {
    &&& crate::decimal::ten_up(m) * crate::double::one_units() <= units * crate::decimal::ten_up(-m)
    &&& units * crate::decimal::ten_up(-m - 1) < crate::decimal::ten_up(m + 1)
        * crate::double::one_units()
}

/// The whole part of the decimal logarithm of a number without its sign: of zero the least
/// integer, of infinity the largest, and zero of "not a number".
pub open spec fn decimal_magnitude(x: Double) -> int {
    if x.is_nan() {
        0
    } else if x.infinite() {
        i32::MAX as int
    } else if x.zero() {
        i32::MIN as int
    } else {
        choose|m: int| of_magnitude(x.abs_units(), m)
    }
}

/// The next power of ten.
proof fn lemma_next_power(e: nat)
    ensures
        pow(10, e + 1) == 10 * pow(10, e),
        pow(10, e) > 0,
        crate::decimal::ten_up(e as int) == pow(10, e),
{
    lemma_pow0(10);
    lemma_pow_positive(10, e);
    lemma_pow_adds(10, e, 1);
    lemma_pow1(10);
    lemma_mul_is_commutative(pow(10, e), 10);
}

/// No number has two magnitudes.
pub proof fn lemma_magnitude_unique(units: nat, a: int, b: int)
    requires
        of_magnitude(units, a),
        of_magnitude(units, b),
    ensures
        a == b,
{
    if a < b {
        lemma_magnitudes_apart(units, a, b);
    } else if b < a {
        lemma_magnitudes_apart(units, b, a);
    }
}

proof fn lemma_magnitudes_apart(units: nat, a: int, b: int)
    requires
        a < b,
        of_magnitude(units, a),
    ensures
        !of_magnitude(units, b),
{
    let one: int = crate::double::one_units() as int;
    let u: int = units as int;
    lemma_pow2_pos(1074);
    let next: int = a + 1;
    // The number lies below 10^next and at or above 10^b, and next is at most b.
    if next >= 0 {
        lemma_pow_increases(10, next as nat, b as nat);
        lemma_next_power(next as nat);
        lemma_next_power(b as nat);
        lemma_mul_basics(u);
        lemma_mul_inequality(
            crate::decimal::ten_up(next) as int,
            crate::decimal::ten_up(b) as int,
            one,
        );
    } else if b >= 0 {
        lemma_next_power(b as nat);
        lemma_next_power((-next) as nat);
        lemma_mul_basics(u);
        lemma_mul_basics(one);
        let p: int = pow(10, (-next) as nat);
        let q: int = pow(10, b as nat);
        assert(u < q * one) by (nonlinear_arith)
            requires
                u * p < one,
                p >= 1,
                q >= 1,
                one > 0,
                u >= 0,
        ;
    } else {
        lemma_pow_increases(10, (-b) as nat, (-next) as nat);
        lemma_next_power((-b) as nat);
        lemma_next_power((-next) as nat);
        lemma_mul_basics(one);
        lemma_mul_inequality(pow(10, (-b) as nat), pow(10, (-next) as nat), u);
        lemma_mul_is_commutative(pow(10, (-b) as nat), u);
        lemma_mul_is_commutative(pow(10, (-next) as nat), u);
    }
}

/// The numbers that doubles stand for lie below 2^1024.
proof fn lemma_units_bound(x: Double)
    requires
        x.finite(),
    ensures
        x.abs_units() < pow2(2098),
{
    let parts: (nat, nat) = crate::double::rounding::lemma_magnitude_parts(x.magnitude());
    crate::double::rounding::lemma_powers();
    lemma_pow2_adds(53, parts.1);
    lemma_pow2_pos(parts.1);
    lemma_mul_strict_inequality(parts.0 as int, pow2(53) as int, pow2(parts.1) as int);
    if 53 + parts.1 < 2098 {
        lemma_pow2_strictly_increases(53 + parts.1, 2098);
    }
}

/// A number with a magnitude has no other.
proof fn lemma_found(x: Double, m: int)
    requires
        x.finite(),
        !x.zero(),
        of_magnitude(x.abs_units(), m),
    ensures
        decimal_magnitude(x) == m,
{
    lemma_magnitude_unique(x.abs_units(), decimal_magnitude(x), m);
}

/// Every finite number other than zero has a magnitude.
pub proof fn lemma_has_magnitude(x: Double)
    requires
        x.finite(),
        !x.zero(),
    ensures
        of_magnitude(x.abs_units(), decimal_magnitude(x)),
{
    let u: nat = x.abs_units();
    crate::double::rounding::lemma_units_monotone(0, x.magnitude());
    lemma_pow2_pos(1074);
    lemma_pow0(10);
    lemma_mul_basics(crate::double::one_units() as int);
    lemma_mul_basics(u as int);
    let m: int = if u >= crate::double::one_units() {
        lemma_magnitude_above(u, 0)
    } else {
        lemma_magnitude_below(u, 0)
    };
    lemma_found(x, m);
}

proof fn lemma_magnitude_above(u: nat, m: nat) -> (found: int)
    requires
        pow(10, m) * crate::double::one_units() <= u,
    ensures
        of_magnitude(u, found),
    decreases u - pow(10, m) * crate::double::one_units(),
{
    let one: int = crate::double::one_units() as int;
    lemma_pow2_pos(1074);
    lemma_next_power(m);
    lemma_next_power(m + 1);
    lemma_mul_basics(u as int);
    let p: int = pow(10, m);
    if u < pow(10, m + 1) * one {
        m as int
    } else {
        assert((10 * p) * one > p * one) by (nonlinear_arith)
            requires
                p > 0,
                one > 0,
        ;
        lemma_magnitude_above(u, m + 1)
    }
}

proof fn lemma_magnitude_below(u: nat, k: nat) -> (found: int)
    requires
        u > 0,
        u * pow(10, k) < crate::double::one_units(),
    ensures
        of_magnitude(u, found),
    decreases crate::double::one_units() - u * pow(10, k),
{
    let one: int = crate::double::one_units() as int;
    lemma_next_power(k);
    lemma_next_power(k + 1);
    lemma_mul_basics(one);
    let p: int = pow(10, k);
    if one <= u * pow(10, k + 1) {
        -(k as int) - 1
    } else {
        assert(u * (10 * p) > u * p) by (nonlinear_arith)
            requires
                p > 0,
                u > 0,
        ;
        lemma_magnitude_below(u, k + 1)
    }
}

/// The number of units of a double.
pub(crate) fn units_of(x: Double) -> (units: Natural)
    requires
        x.finite(),
    ensures
        units@ == x.abs_units(),
{
    let parts: Parts = x.parts();
    Natural::from_wide(parts.significand).shifted(parts.exponent)
}

/// A power of ten above 2^1024 is out of reach.
proof fn lemma_power_bound(u: nat, m: nat)
    requires
        u < pow2(2098),
        pow(10, m) * crate::double::one_units() <= u,
    ensures
        m < 342,
{
    if m >= 342 {
        let one: int = crate::double::one_units() as int;
        crate::decimal::lemma_pow_ten_bound(m);
        lemma_pow2_pos(1074);
        if 3 * m > 1026 {
            lemma_pow2_strictly_increases(1026, 3 * m);
        }
        lemma_pow2_adds(1026, 1074);
        lemma_pow2_strictly_increases(2098, 2100);
        lemma_mul_inequality(pow2(1026) as int, pow(10, m), one);
    }
}

/// A power of ten above 2^1074 lifts every number above one.
proof fn lemma_lift_bound(u: nat, k: nat)
    requires
        u > 0,
        u * pow(10, k) < crate::double::one_units(),
    ensures
        k < 359,
{
    if k >= 359 {
        crate::decimal::lemma_pow_ten_bound(k);
        lemma_pow2_strictly_increases(1074, 3 * k);
        assert(u * pow(10, k) >= pow(10, k)) by (nonlinear_arith)
            requires
                u >= 1,
                pow(10, k) > 0,
        ;
    }
}

/// The decimal magnitude of a number.
pub fn magnitude(x: Double) -> (m: i32)
    ensures
        m == decimal_magnitude(x),
        x.finite() && !x.zero() ==> -400 < m < 400,
{
    if x.is_not_a_number() {
        return 0;
    }
    if !x.is_finite() {
        return i32::MAX;
    }
    let units: Natural = units_of(x);
    let one: Natural = Natural::from_wide(1).shifted(1074);
    let ghost u: nat = x.abs_units();
    proof {
        lemma_mul_basics(pow2(1074) as int);
        lemma_units_bound(x);
        lemma_pow0(10);
        lemma_mul_basics(u as int);
        lemma_mul_basics(crate::double::one_units() as int);
        crate::double::rounding::lemma_powers();
        if !x.zero() {
            crate::double::rounding::lemma_units_monotone(0, x.magnitude());
        }
    }
    if units.is_less(&Natural::from_small(1)) {
        return i32::MIN;
    }
    if units.is_less(&one) {
        let mut k: i32 = 0;
        let mut lifted: Natural = units;
        loop
            invariant
                0 <= k < 359,
                u == x.abs_units(),
                u > 0,
                x.finite(),
                !x.zero(),
                one@ == crate::double::one_units(),
                lifted@ == u * pow(10, k as nat),
                lifted@ < one@,
            decreases 400 - k,
        {
            let next: Natural = lifted.scaled(10, 0);
            proof {
                lemma_next_power(k as nat);
                lemma_next_power((k + 1) as nat);
                lemma_mul_is_associative(u as int, pow(10, k as nat), 10);
                lemma_mul_is_commutative(pow(10, k as nat), 10);
                lemma_mul_basics(one@ as int);
            }
            if !next.is_less(&one) {
                proof {
                    lemma_found(x, -(k as int) - 1);
                }
                return -k - 1;
            }
            proof {
                lemma_lift_bound(u, (k + 1) as nat);
            }
            lifted = next;
            k = k + 1;
        }
    }
    let mut m: i32 = 0;
    let mut power: Natural = one;
    loop
        invariant
            0 <= m < 342,
            u == x.abs_units(),
            units@ == u,
            u < pow2(2098),
            x.finite(),
            !x.zero(),
            power@ == pow(10, m as nat) * crate::double::one_units(),
            power@ <= u,
        decreases 400 - m,
    {
        let next: Natural = power.scaled(10, 0);
        proof {
            lemma_next_power(m as nat);
            lemma_next_power((m + 1) as nat);
            assert((pow(10, m as nat) * crate::double::one_units()) * 10 == (10 * pow(
                10,
                m as nat,
            )) * crate::double::one_units()) by (nonlinear_arith);
            lemma_mul_basics(u as int);
        }
        if units.is_less(&next) {
            proof {
                lemma_found(x, m as int);
            }
            return m;
        }
        proof {
            lemma_power_bound(u, (m + 1) as nat);
        }
        power = next;
        m = m + 1;
    }
}

} // verus!
