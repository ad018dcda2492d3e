//! What rounding does to an order.
use vstd::arithmetic::div_mod::*;
use vstd::arithmetic::mul::*;
use vstd::arithmetic::power::*;
use vstd::arithmetic::power2::*;
use vstd::prelude::*;

use crate::double::{Double, INFINITY_BITS, TWO_52, TWO_53};
use crate::liquid::client::{NormalizedSpotOrder, OrderError, SPOT_DECIMALS};

verus! {

/// The whole part of a double is a double, and so is the next whole number where the double is
/// not whole itself.
proof fn lemma_whole_parts(u: nat, magnitude: nat)
    requires
        magnitude < INFINITY_BITS,
        u == crate::double::magnitude_units(magnitude),
    ensures
        ({
            let one: nat = crate::double::one_units();
            let down: nat = crate::double::whole_down(u);
            let up: nat = crate::double::whole_up(u);
            &&& Double::whole(false, down).finite()
            &&& Double::whole(false, down).abs_units() == down * one
            &&& Double::whole(false, up).finite()
            &&& Double::whole(false, up).abs_units() == up * one
            &&& down * one <= u < down * one + one
            &&& u <= up * one < u + one
        }),
{
    let one: nat = crate::double::one_units();
    let down: nat = crate::double::whole_down(u);
    let up: nat = crate::double::whole_up(u);
    let (q, e): (nat, nat) = crate::double::rounding::lemma_magnitude_parts(magnitude);
    lemma_pow2_pos(1074);
    lemma_pow2_pos(e);
    lemma_fundamental_div_mod(u as int, one as int);
    lemma_mod_bound(u as int, one as int);
    lemma_mul_is_commutative(one as int, down as int);
    lemma_mul_is_distributive_add_other_way(one as int, down as int, 1);
    crate::double::rounding::lemma_powers();
    if e >= 1074 {
        let f: nat = (e - 1074) as nat;
        lemma_pow2_adds(f, 1074);
        lemma_mul_is_associative(q as int, pow2(f) as int, one as int);
        lemma_mod_multiples_basic((q * pow2(f)) as int, one as int);
        assert(up == down);
        assert(down * one == u);
        crate::double::rounding::lemma_nearest_exact(magnitude);
    } else {
        let g: nat = (1074 - e) as nat;
        lemma_pow2_adds(e, g);
        lemma_pow2_pos(g);
        lemma_pow2_unfold(g);
        lemma_pow2_pos((g - 1) as nat);
        assert(down < TWO_52) by (nonlinear_arith)
            requires
                down * one <= u,
                u == q * pow2(e),
                one == pow2(e) * pow2(g),
                pow2(g) >= 2,
                pow2(e) > 0,
                q < TWO_53,
                TWO_53 == 2 * TWO_52,
        ;
        crate::decimal::lemma_whole_exact(down);
        crate::decimal::lemma_whole_exact(up);
    }
}

/// Infinity is a whole number, by convention.
proof fn lemma_infinity_is_whole()
    ensures
        Double::whole(false, pow2(1024)) == Double::signed(false, INFINITY_BITS as nat),
        Double::whole(true, pow2(1024)) == Double::signed(true, INFINITY_BITS as nat),
{
    crate::double::rounding::lemma_powers();
    crate::double::rounding::lemma_nearest_exact(INFINITY_BITS as nat);
    lemma_pow2_adds(52, 2046);
    lemma_pow2_adds(1024, 1074);
    assert(INFINITY_BITS as nat / (TWO_52 as nat) == 2047);
    assert(INFINITY_BITS as nat % (TWO_52 as nat) == 0);
}

/// A number is rounded to a whole number less than one away.
pub proof fn lemma_rounded(x: Double)
    requires
        !x.is_nan(),
    ensures
        ({
            let one: int = crate::double::one_units() as int;
            let up: Double = x.rounded_up();
            let down: Double = x.rounded_down();
            &&& !up.is_nan() && x.units() <= up.units() < x.units() + one
            &&& !down.is_nan() && down.units() <= x.units() < down.units() + one
            &&& exists|n: nat| up == #[trigger] Double::whole(x.negative(), n)
            &&& exists|n: nat| down == #[trigger] Double::whole(x.negative(), n)
        }),
{
    lemma_pow2_pos(1074);
    if x.finite() {
        let u: nat = x.abs_units();
        lemma_whole_parts(u, x.magnitude());
        let down: nat = crate::double::whole_down(u);
        let up: nat = crate::double::whole_up(u);
        if x.negative() {
            assert(x.rounded_up() == Double::whole(true, down));
            assert(x.rounded_down() == Double::whole(true, up));
        } else {
            assert(x.rounded_up() == Double::whole(false, up));
            assert(x.rounded_down() == Double::whole(false, down));
        }
    } else {
        lemma_infinity_is_whole();
        assert(x == Double::whole(x.negative(), pow2(1024)));
    }
}

/// The powers of ten that orders are scaled by are doubles.
pub proof fn lemma_factor(places: nat)
    requires
        places <= SPOT_DECIMALS,
    ensures
        pow(10, places) > 0,
        crate::liquid::client::decimal_factor(places as int).positive(),
        crate::liquid::client::decimal_factor(places as int).abs_units() == pow(10, places)
            * crate::double::one_units(),
{
    lemma_pow_positive(10, places);
    lemma_pow_increases(10, places, 8);
    reveal_with_fuel(pow, 9);
    lemma_pow2_pos(1074);
    crate::decimal::lemma_whole_exact(pow(10, places) as nat);
    let f: Double = crate::liquid::client::decimal_factor(places as int);
    lemma_mul_strictly_positive(pow(10, places), crate::double::one_units() as int);
    crate::double::rounding::lemma_powers();
    assert(f.magnitude() != 0);
}

/// The tolerance lies between zero and one half.
proof fn lemma_tolerance()
    ensures
        Double::tenth_of_billionth().positive(),
        0 < Double::tenth_of_billionth().units() <= pow2(1073),
        crate::double::one_units() == 2 * pow2(1073),
{
    let e: Double = Double::tenth_of_billionth();
    crate::double::rounding::lemma_powers();
    lemma_pow2_unfold(1074);
    lemma_pow2_adds(52, 1021);
    assert(0x3fe0_0000_0000_0000nat / 0x0010_0000_0000_0000nat == 1022);
    assert(0x3fe0_0000_0000_0000nat % 0x0010_0000_0000_0000nat == 0);
    crate::double::rounding::lemma_units_monotone(0, e.magnitude());
    crate::double::rounding::lemma_order_of_bits(e.magnitude(), 0x3fe0_0000_0000_0000);
}

/// Where a price keeps decimals, it comes to at most 10^5 steps of the last one.
pub proof fn lemma_scaled_price(price: Double, size_decimals: u8)
    requires
        price.positive(),
        size_decimals <= SPOT_DECIMALS,
        crate::liquid::client::price_places(price, size_decimals as int) > 0,
    ensures
        ({
            let places: int = crate::liquid::client::price_places(price, size_decimals as int);
            price.abs_units() * pow(10, places as nat) <= 100_000 * crate::double::one_units()
        }),
{
    let places: int = crate::liquid::client::price_places(price, size_decimals as int);
    let p: nat = places as nat;
    let u: int = price.abs_units() as int;
    let one: int = crate::double::one_units() as int;
    let m: int = crate::decimal::magnitude::decimal_magnitude(price);
    crate::decimal::magnitude::lemma_has_magnitude(price);
    assert(p <= 4 - m);
    lemma_pow2_pos(1074);
    lemma_pow0(10);
    assert(pow(10, 5) == 100_000) by {
        reveal_with_fuel(pow, 6);
    }
    lemma_pow_positive(10, p);
    let t: int = pow(10, p);
    if m + 1 >= 0 {
        let k: nat = (m + 1) as nat;
        lemma_pow_positive(10, k);
        lemma_pow_adds(10, k, p);
        lemma_pow_increases(10, k + p, 5);
        lemma_mul_basics(u);
        let a: int = pow(10, k);
        assert(u < a * one);
        assert(u * t <= (a * t) * one) by (nonlinear_arith)
            requires
                u <= a * one,
                t > 0,
        ;
        assert((a * t) * one <= 100_000 * one) by (nonlinear_arith)
            requires
                a * t <= 100_000,
                one > 0,
        ;
    } else {
        let k: nat = (-m - 1) as nat;
        lemma_pow_positive(10, k);
        lemma_mul_basics(one);
        assert(u * pow(10, k) < one);
        if p >= k {
            let r: nat = (p - k) as nat;
            lemma_pow_adds(10, k, r);
            lemma_pow_increases(10, r, 5);
            lemma_pow_positive(10, r);
            let a: int = pow(10, k);
            let b: int = pow(10, r);
            assert(u * (a * b) <= 100_000 * one) by (nonlinear_arith)
                requires
                    u * a < one,
                    0 < b <= 100_000,
                    u * a >= 0,
                    one > 0,
            {
                assert(u * (a * b) == (u * a) * b);
            }
        } else {
            lemma_pow_increases(10, p, k);
            assert(u * t <= u * pow(10, k)) by (nonlinear_arith)
                requires
                    t <= pow(10, k),
                    u >= 0,
            ;
        }
    }
}

/// A price that keeps decimals has at most 10^5 whole steps.
proof fn lemma_few_steps(is_buy: bool, price: Double, size_decimals: u8)
    requires
        price.positive(),
        size_decimals <= SPOT_DECIMALS,
        crate::liquid::client::price_places(price, size_decimals as int) > 0,
    ensures
        ({
            let places: int = crate::liquid::client::price_places(price, size_decimals as int);
            let whole: Double = crate::liquid::client::whole_price_steps(is_buy, price, places);
            !whole.is_nan() && whole.units() <= 100_000 * crate::double::one_units()
        }),
{
    let places: int = crate::liquid::client::price_places(price, size_decimals as int);
    let p: nat = places as nat;
    let one: nat = crate::double::one_units();
    let u: nat = price.abs_units();
    let t: nat = pow(10, p) as nat;
    let eps: Double = Double::tenth_of_billionth();
    lemma_pow2_pos(1074);
    lemma_factor(p);
    lemma_tolerance();
    lemma_scaled_price(price, size_decimals);
    let factor: Double = crate::liquid::client::decimal_factor(places);
    let steps: Double = price.product(factor);
    // The steps are at most 10^5.
    let bits: nat = crate::double::nearest_bits(u * (t * one), one);
    assert((u * (t * one)) * 1 <= (100_000 * one) * one) by (nonlinear_arith)
        requires
            u * t <= 100_000 * one,
    {
        assert(u * (t * one) == (u * t) * one);
    }
    crate::double::rounding::lemma_nearest_monotone(u * (t * one), one, 100_000 * one, 1);
    crate::decimal::lemma_whole_exact(100_000);
    let top: Double = Double::whole(false, 100_000);
    crate::double::rounding::lemma_order_of_bits(bits, top.magnitude());
    assert(steps.finite() && !steps.negative());
    let x: nat = steps.abs_units();
    let y: Double = crate::liquid::client::price_steps(is_buy, price, places);
    lemma_rounded_sum(x as int - eps.units(), 100_000);
    lemma_rounded_sum(x as int + eps.units(), 100_000);
    if is_buy {
        assert(eps.opposite().units() == -eps.units());
        assert(y == crate::double::from_units(x - eps.units(), false));
    } else {
        assert(y == crate::double::from_units(x + eps.units(), false));
    }
    lemma_rounded(y);
    if y.negative() {
        assert(y.units() <= 0);
    } else {
        lemma_whole_parts(y.abs_units(), y.magnitude());
        lemma_bounded_whole(y.abs_units(), 100_000);
    }
}

/// What is at most a whole number and a half has at most that whole part.
proof fn lemma_bounded_whole(u: nat, k: nat)
    requires
        u <= k * crate::double::one_units() + pow2(1073),
        crate::double::one_units() == 2 * pow2(1073),
    ensures
        crate::double::whole_down(u) * crate::double::one_units() <= k * crate::double::one_units(),
        u <= k * crate::double::one_units() ==> crate::double::whole_up(u)
            * crate::double::one_units() <= k * crate::double::one_units(),
{
    let one: int = crate::double::one_units() as int;
    lemma_pow2_pos(1073);
    lemma_fundamental_div_mod(u as int, one);
    lemma_mod_bound(u as int, one);
    let q: int = u as int / one;
    assert(q <= k) by (nonlinear_arith)
        requires
            one * q <= u,
            u < k * one + one,
            one > 0,
    ;
    lemma_mul_inequality(q, k as int, one);
    if u <= k * one {
        if q == k {
            lemma_mul_is_commutative(q, one);
        } else {
            lemma_mul_inequality(q + 1, k as int, one);
        }
    }
}

/// A sum that is at most a small whole number, or that and a half, stays so when it is rounded.
proof fn lemma_rounded_sum(units: int, k: nat)
    requires
        k <= 100_000,
        crate::double::one_units() == 2 * pow2(1073),
        units <= k * crate::double::one_units() + pow2(1073),
    ensures
        ({
            let y: Double = crate::double::from_units(units, false);
            &&& !y.is_nan()
            &&& y.units() <= k * crate::double::one_units() + pow2(1073)
            &&& units <= k * crate::double::one_units() ==> y.units() <= k
                * crate::double::one_units()
            &&& units > 0 ==> y.finite()
        }),
{
    let one: nat = crate::double::one_units();
    let y: Double = crate::double::from_units(units, false);
    lemma_pow2_pos(1073);
    crate::double::rounding::lemma_powers();
    if units > 0 {
        let bits: nat = crate::double::nearest_bits(units as nat, 1);
        let n: nat = 2 * k + 1;
        crate::double::rounding::lemma_representable(n, 1073);
        lemma_mul_is_distributive_add_other_way(pow2(1073) as int, (2 * k) as int, 1);
        lemma_mul_is_associative(k as int, 2, pow2(1073) as int);
        lemma_mul_is_commutative(k as int, 2);
        assert(n * pow2(1073) == k * one + pow2(1073));
        crate::double::rounding::lemma_nearest_monotone(units as nat, 1, n * pow2(1073), 1);
        crate::double::rounding::lemma_order_of_bits(bits, crate::double::nearest_bits(n * pow2(1073), 1));
        if units <= k * one {
            crate::decimal::lemma_whole_exact(k);
            crate::double::rounding::lemma_nearest_monotone(units as nat, 1, k * one, 1);
            crate::double::rounding::lemma_order_of_bits(bits, crate::double::nearest_bits(k * one, 1));
        }
    }
}

/// What the exchange takes is a whole number of steps, which lies less than a step from what was
/// wanted, give or take the tolerance: at or above the price of a buyer, at or below the price of
/// a seller, and at or below the size. A price that keeps decimals has at most 10^5 steps, so that
/// it shows at most five significant figures.
pub proof fn law_orders_are_rounded_by_less_than_a_step(
    is_buy: bool,
    price: Double,
    size: Double,
    size_decimals: u8,
    order: NormalizedSpotOrder,
)
    requires
        crate::liquid::client::normalized_order(is_buy, price, size, size_decimals) == Ok::<
            NormalizedSpotOrder,
            OrderError,
        >(order),
    ensures
        ({
            let one: int = crate::double::one_units() as int;
            let places: int = crate::liquid::client::price_places(price, size_decimals as int);
            let wanted: Double = crate::liquid::client::price_steps(is_buy, price, places);
            let whole: Double = crate::liquid::client::whole_price_steps(is_buy, price, places);
            &&& 0 <= places <= SPOT_DECIMALS - size_decimals
            &&& order.price == whole.quotient(crate::liquid::client::decimal_factor(places))
            &&& exists|n: nat| whole == #[trigger] Double::whole(wanted.negative(), n)
            &&& is_buy ==> wanted.at_most(whole) && whole.units() < wanted.units() + one
            &&& !is_buy ==> whole.at_most(wanted) && wanted.units() < whole.units() + one
            &&& places > 0 ==> whole.units() <= 100_000 * one
        }),
        ({
            let one: int = crate::double::one_units() as int;
            let wanted: Double = crate::liquid::client::size_steps(size, size_decimals as int);
            let whole: Double = wanted.rounded_down();
            &&& order.size == whole.quotient(
                crate::liquid::client::decimal_factor(size_decimals as int),
            )
            &&& exists|n: nat| whole == #[trigger] Double::whole(wanted.negative(), n)
            &&& whole.at_most(wanted)
            &&& wanted.units() < whole.units() + one
        }),
{
    let places: int = crate::liquid::client::price_places(price, size_decimals as int);
    lemma_factor(places as nat);
    lemma_factor(size_decimals as nat);
    lemma_tolerance();
    lemma_rounded(crate::liquid::client::price_steps(is_buy, price, places));
    lemma_rounded(crate::liquid::client::size_steps(size, size_decimals as int));
    if places > 0 {
        lemma_few_steps(is_buy, price, size_decimals);
    }
}

} // verus!
