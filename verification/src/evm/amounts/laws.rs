//! How amounts on chain compare with each other.
use vstd::arithmetic::div_mod::*;
use vstd::arithmetic::mul::*;
use vstd::arithmetic::power::*;
use vstd::arithmetic::power2::*;
use vstd::prelude::*;

use crate::decimal::MAX_POWER;
use crate::double::{Double, INFINITY_BITS, TWO_52, TWO_53};

verus! {

/// An amount can be converted, whichever way its fraction is rounded, exactly where it has at most
/// 38 decimals and lies between zero and 10^15.
pub proof fn law_amounts_in_range_convert(amount: Double, decimals: u8, round_up: bool)
    ensures
        crate::evm::amounts::chain_amount_result(amount, decimals, round_up) is Ok <==> {
            &&& decimals <= MAX_POWER
            &&& amount.finite()
            &&& 0 <= amount.units() < 1_000_000_000_000_000 * crate::double::one_units()
        },
        crate::evm::amounts::chain_amount_result(amount, decimals, round_up) is Ok
            <==> crate::evm::amounts::chain_amount_result(amount, decimals, !round_up) is Ok,
{
    crate::evm::amounts::lemma_quadrillion();
    crate::double::rounding::lemma_powers();
}

/// Rounding up gives what rounding to the nearest gives, or one more.
pub proof fn law_rounding_up_adds_at_most_one(amount: Double, decimals: u8)
    requires
        crate::evm::amounts::chain_amount_result(amount, decimals, true) is Ok,
    ensures
        crate::evm::amounts::chain_amount(amount, decimals, false)
            <= crate::evm::amounts::chain_amount(amount, decimals, true)
            <= crate::evm::amounts::chain_amount(amount, decimals, false) + 1,
{
    crate::evm::amounts::law_rounding_up_does_not_loosen(amount, decimals);
}

/// What is left of a double above its whole part is a double too.
proof fn lemma_rest_is_exact(amount: Double)
    requires
        amount.finite(),
    ensures
        ({
            let rest: nat = amount.abs_units() % crate::double::one_units();
            let bits: nat = crate::double::nearest_bits(rest, 1);
            bits < INFINITY_BITS && crate::double::magnitude_units(bits) == rest
        }),
{
    let one: nat = crate::double::one_units();
    let u: nat = amount.abs_units();
    let (q, e): (nat, nat) = crate::double::rounding::lemma_magnitude_parts(amount.magnitude());
    lemma_pow2_pos(e);
    lemma_pow2_pos(1074);
    if e >= 1074 {
        let f: nat = (e - 1074) as nat;
        lemma_pow2_adds(f, 1074);
        lemma_mul_is_associative(q as int, pow2(f) as int, one as int);
        lemma_mod_multiples_basic((q * pow2(f)) as int, one as int);
        crate::double::rounding::lemma_representable(0, 0);
        lemma_mul_basics(pow2(0) as int);
    } else {
        let g: nat = (1074 - e) as nat;
        let c: nat = pow2(g);
        lemma_pow2_pos(g);
        lemma_pow2_adds(e, g);
        lemma_mul_is_commutative(q as int, pow2(e) as int);
        lemma_truncate_middle(q as int, pow2(e) as int, c as int);
        let k: nat = q % c;
        lemma_mod_bound(q as int, c as int);
        lemma_mod_decreases(q, c);
        lemma_mul_is_commutative(pow2(e) as int, k as int);
        crate::double::rounding::lemma_representable(k, e);
    }
}

/// The scaled fraction of an amount is what is left above its whole part, times the scale,
/// rounded once.
pub proof fn lemma_fraction_units(amount: Double, decimals: u8)
    requires
        decimals <= MAX_POWER,
        amount.finite(),
        Double::nought().at_most(amount),
        amount.less(Double::quadrillion()),
    ensures
        crate::evm::amounts::scaled_fraction(amount, decimals).abs_units()
            == crate::double::magnitude_units(
            crate::double::nearest_bits(
                (amount.abs_units() % crate::double::one_units())
                    * crate::evm::amounts::scale_as_double(decimals).abs_units(),
                crate::double::one_units(),
            ),
        ),
{
    let one: nat = crate::double::one_units();
    let u: nat = amount.abs_units();
    let w: nat = crate::double::whole_down(u);
    crate::evm::amounts::lemma_fraction(amount, decimals);
    crate::evm::amounts::lemma_scale_bound(decimals);
    lemma_rest_is_exact(amount);
    lemma_pow2_pos(1074);
    crate::double::rounding::lemma_powers();
    assert(Double::nought().units() == 0);
    if amount.negative() {
        assert(amount.units() == -(u as int));
        assert(u == 0);
        lemma_div_basics(one as int);
        lemma_small_mod(0, one);
    }
    lemma_fundamental_div_mod(u as int, one as int);
    lemma_mul_is_commutative(one as int, w as int);
    crate::double::rounding::lemma_representable(w, 1074);
    if amount.negative() {
        lemma_mul_basics(one as int);
    }
    let floor: Double = amount.rounded_down();
    assert(floor.finite());
    assert(floor.abs_units() == w * one);
    let part: Double = amount.difference(floor);
    let rest: nat = u % one;
    assert(part.finite());
    assert(part.abs_units() == rest);
}

/// A number below one, times a double, rounds to less than that double, where the double is large.
proof fn lemma_part_stays_below(rest: nat, s: Double)
    requires
        s.finite(),
        !s.negative(),
        s.abs_units() >= pow2(53),
        rest < crate::double::one_units(),
        crate::double::magnitude_units(crate::double::nearest_bits(rest, 1)) == rest,
    ensures
        crate::double::nearest_bits(rest * s.abs_units(), crate::double::one_units())
            < s.magnitude(),
{
    let one: nat = crate::double::one_units();
    let b: nat = s.magnitude();
    let v: nat = s.abs_units();
    crate::double::rounding::lemma_powers();
    crate::double::laws::lemma_one();
    // The largest double below one.
    let p: nat = 0x3fef_ffff_ffff_ffff;
    let top: nat = crate::double::magnitude_units(p);
    assert(p / 0x0010_0000_0000_0000nat == 1022);
    assert(p % 0x0010_0000_0000_0000nat == 0xf_ffff_ffff_ffff);
    lemma_pow2_adds(53, 1021);
    assert(top == (TWO_53 - 1) * pow2(1021));
    lemma_mul_is_distributive_sub_other_way(pow2(1021) as int, TWO_53 as int, 1);
    assert(top == one - pow2(1021));
    let bits: nat = crate::double::nearest_bits(rest, 1);
    if bits > p {
        crate::double::rounding::lemma_order_of_bits(0x3ff0_0000_0000_0000, bits);
    }
    crate::double::rounding::lemma_order_of_bits(bits, p);
    let num: nat = top * v;
    lemma_pow2_pos(1074);
    assert((rest * v) * one <= num * one) by (nonlinear_arith)
        requires
            rest <= top,
            num == top * v,
    ;
    crate::double::rounding::lemma_nearest_monotone(rest * v, one, num, one);
    let x: nat = crate::double::nearest_bits(num, one);
    // It is at most the double itself.
    assert(num * 1 <= v * one) by (nonlinear_arith)
        requires
            top <= one,
            num == top * v,
    ;
    crate::double::rounding::lemma_nearest_monotone(num, one, v, 1);
    crate::double::rounding::lemma_nearest_exact(b);
    // The double before it lies nearer than itself.
    let (q, t): (nat, nat) = crate::double::rounding::lemma_magnitude_parts(b);
    if t == 0 {
        lemma_mul_basics(q as int);
    }
    let t1: nat = (t - 1) as nat;
    lemma_pow2_unfold(t);
    lemma_pow2_pos(t1);
    let h: nat = pow2(t1);
    let below: Double = Double::signed(false, (b - 1) as nat);
    assert(below.magnitude() == b - 1);
    lemma_before(q, t);
    let y: nat = below.abs_units();
    // v == q * 2h; the product lies q * 2h / 2^53 below it.
    let gap: nat = pow2(1021) * v;
    assert(num == one * v - gap) by (nonlinear_arith)
        requires
            num == top * v,
            top == one - pow2(1021),
            gap == pow2(1021) * v,
    ;
    if x == b {
        crate::double::laws::law_rounding_is_to_the_nearest(num, one, below);
        let c: nat = pow2(1021);
        lemma_pow2_pos(1021);
        assert(one == TWO_53 * c);
        if q == TWO_52 {
            assert((TWO_53 - 1) * h == TWO_52 * (2 * h) - h) by (nonlinear_arith)
                requires
                    TWO_53 == 2 * TWO_52,
            ;
            assert(y == v - h);
            assert(y * one == num) by (nonlinear_arith)
                requires
                    y == v - h,
                    num == one * v - gap,
                    gap == c * v,
                    v == TWO_52 * (2 * h),
                    one == TWO_53 * c,
                    TWO_53 == 2 * TWO_52,
            ;
            assert(v * one - num == gap) by (nonlinear_arith)
                requires
                    num == one * v - gap,
            ;
            assert(gap > 0) by (nonlinear_arith)
                requires
                    gap == c * v,
                    c > 0,
                    v > 0,
            ;
        } else {
            assert((q - 1) * (2 * h) == q * (2 * h) - 2 * h) by (nonlinear_arith);
            assert(y == v - 2 * h);
            assert(v * one - num == gap) by (nonlinear_arith)
                requires
                    num == one * v - gap,
            ;
            // The other one lies 2h - gap away, which is less, since gap is more than h.
            assert(gap == c * (q * (2 * h)));
            assert(c * (q * (2 * h)) > (h * TWO_53) * c) by (nonlinear_arith)
                requires
                    q >= TWO_52 + 1,
                    TWO_53 == 2 * TWO_52,
                    h > 0,
                    c > 0,
            ;
            assert(h * one == (h * TWO_53) * c) by (nonlinear_arith)
                requires
                    one == TWO_53 * c,
            ;
            assert(y * one == v * one - 2 * (h * one)) by (nonlinear_arith)
                requires
                    y == v - 2 * h,
            ;
            assert(c * (q * (2 * h)) < 2 * (h * one)) by (nonlinear_arith)
                requires
                    q < TWO_53,
                    one == TWO_53 * c,
                    h > 0,
                    c > 0,
            ;
        }
    }
}

/// The scaled fraction of an amount is at most the scale.
proof fn lemma_fraction_within_scale(amount: Double, decimals: u8)
    requires
        decimals <= MAX_POWER,
        amount.finite(),
        Double::nought().at_most(amount),
        amount.less(Double::quadrillion()),
    ensures
        crate::double::whole_up(
            crate::evm::amounts::scaled_fraction(amount, decimals).abs_units(),
        ) <= crate::evm::amounts::scale(decimals),
{
    let one: nat = crate::double::one_units();
    let k: nat = crate::evm::amounts::scale(decimals);
    let s: Double = crate::evm::amounts::scale_as_double(decimals);
    let v: nat = s.abs_units();
    let rest: nat = amount.abs_units() % one;
    let bits: nat = crate::double::nearest_bits(rest * v, one);
    lemma_pow2_pos(1074);
    lemma_mod_bound(amount.abs_units() as int, one as int);
    lemma_pow_positive(10, decimals as nat);
    lemma_fraction_units(amount, decimals);
    lemma_rest_is_exact(amount);
    crate::evm::amounts::lemma_scale_bound(decimals);
    if v <= k * one {
        assert((rest * v) * 1 <= v * one) by (nonlinear_arith)
            requires
                rest <= one,
        ;
        crate::double::rounding::lemma_nearest_monotone(rest * v, one, v, 1);
        crate::double::rounding::lemma_nearest_exact(s.magnitude());
        crate::double::rounding::lemma_order_of_bits(bits, s.magnitude());
    } else {
        lemma_pow2_strictly_increases(53, 1074);
        assert(k * one >= one) by (nonlinear_arith)
            requires
                k >= 1,
                one > 0,
        ;
        lemma_part_stays_below(rest, s);
        let below: Double = Double::signed(false, (s.magnitude() - 1) as nat);
        assert(below.magnitude() == s.magnitude() - 1);
        crate::double::rounding::lemma_order_of_bits(bits, below.magnitude());
        crate::double::rounding::lemma_units_monotone(below.magnitude(), s.magnitude());
        crate::double::laws::law_rounding_is_to_the_nearest(k * one, 1, below);
        lemma_mul_basics(v as int);
        lemma_mul_basics(below.abs_units() as int);
        assert(below.abs_units() <= k * one);
    }
    lemma_covered(crate::double::magnitude_units(bits), k);
}

/// What is at most a whole number of ones is covered by that whole number.
proof fn lemma_covered(units: nat, k: nat)
    requires
        units <= k * crate::double::one_units(),
    ensures
        crate::double::whole_up(units) <= k,
{
    let one: int = crate::double::one_units() as int;
    let q: int = units as int / one;
    lemma_pow2_pos(1074);
    lemma_fundamental_div_mod(units as int, one);
    lemma_mod_bound(units as int, one);
    assert(q <= k) by (nonlinear_arith)
        requires
            one * q <= units,
            units <= k * one,
            one > 0,
    ;
    if q == k {
        lemma_mul_is_commutative(k as int, one);
    }
}

/// What covers a number covers every smaller one.
proof fn lemma_cover_grows(a: nat, b: nat)
    requires
        a <= b,
    ensures
        crate::double::whole_up(a) <= crate::double::whole_up(b),
{
    let one: int = crate::double::one_units() as int;
    lemma_pow2_pos(1074);
    lemma_fundamental_div_mod(b as int, one);
    lemma_mod_bound(b as int, one);
    let q: int = b as int / one;
    lemma_mul_is_commutative(one, q);
    lemma_mul_is_distributive_add_other_way(one, q, 1);
    lemma_covered(a, crate::double::whole_up(b));
}

/// A larger amount is not rounded up to less.
pub proof fn law_rounding_up_grows_with_the_amount(a: Double, b: Double, decimals: u8)
    requires
        crate::evm::amounts::chain_amount_result(a, decimals, true) is Ok,
        crate::evm::amounts::chain_amount_result(b, decimals, true) is Ok,
        a.at_most(b),
    ensures
        crate::evm::amounts::chain_amount(a, decimals, true) <= crate::evm::amounts::chain_amount(
            b,
            decimals,
            true,
        ),
{
    let one: nat = crate::double::one_units();
    let k: nat = crate::evm::amounts::scale(decimals);
    let v: nat = crate::evm::amounts::scale_as_double(decimals).abs_units();
    let ua: nat = a.abs_units();
    let ub: nat = b.abs_units();
    lemma_pow2_pos(1074);
    crate::double::rounding::lemma_powers();
    assert(Double::nought().units() == 0);
    if a.negative() {
        assert(ua == 0);
    }
    if b.negative() {
        assert(ub == 0);
    }
    assert(ua <= ub);
    let wa: nat = ua / one;
    let wb: nat = ub / one;
    lemma_div_is_ordered(ua as int, ub as int, one as int);
    lemma_fraction_units(a, decimals);
    lemma_fraction_units(b, decimals);
    let fa: nat = crate::evm::amounts::scaled_fraction(a, decimals).abs_units();
    let fb: nat = crate::evm::amounts::scaled_fraction(b, decimals).abs_units();
    if wa == wb {
        lemma_fundamental_div_mod(ua as int, one as int);
        lemma_fundamental_div_mod(ub as int, one as int);
        let ra: nat = ua % one;
        let rb: nat = ub % one;
        assert(ra <= rb);
        assert((ra * v) * one <= (rb * v) * one) by (nonlinear_arith)
            requires
                ra <= rb,
        ;
        crate::double::rounding::lemma_nearest_monotone(ra * v, one, rb * v, one);
        crate::double::rounding::lemma_order_of_bits(
            crate::double::nearest_bits(ra * v, one),
            crate::double::nearest_bits(rb * v, one),
        );
        lemma_cover_grows(fa, fb);
    } else {
        lemma_fraction_within_scale(a, decimals);
        assert(wa * k + k <= wb * k) by (nonlinear_arith)
            requires
                wa + 1 <= wb,
                k >= 0,
        ;
    }
}

/// The double before a large one.
proof fn lemma_before(q: nat, t: nat)
    requires
        TWO_52 <= q < TWO_53,
        t > 0,
    ensures
        ({
            let b: nat = (q + t * TWO_52 - 1) as nat;
            crate::double::magnitude_units(b) == if q > TWO_52 {
                (q - 1) * pow2(t)
            } else {
                (TWO_53 - 1) * pow2((t - 1) as nat)
            }
        }),
{
    crate::double::rounding::lemma_powers();
    let w: int = TWO_52 as int;
    let b: int = q + t * TWO_52 - 1;
    if q > TWO_52 {
        lemma_mul_is_distributive_add_other_way(w, t as int, 1);
        lemma_fundamental_div_mod_converse(b, w, t as int + 1, q - 1 - w);
    } else {
        lemma_fundamental_div_mod_converse(b, w, t as int, w - 1);
    }
}

} // verus!
