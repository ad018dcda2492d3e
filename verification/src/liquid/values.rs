//! What rounding to the precision of a market does to the value of a price or a size.
use vstd::arithmetic::mul::*;
use vstd::arithmetic::power::*;
use vstd::arithmetic::power2::*;
use vstd::prelude::*;

use crate::double::Double;
use crate::liquid::client::{NormalizedSpotOrder, OrderError, SPOT_DECIMALS};

verus! {

/// The value of the tolerance is 10^-10, give or take.
pub proof fn lemma_epsilon()
    ensures
        Double::tenth_of_billionth().finite(),
        1 as real <= 20_000_000_000 as real * Double::tenth_of_billionth().value(),
        10_000_000_000 as real * Double::tenth_of_billionth().value() <= 2 as real,
        1_000_000_000_000_000 as real * crate::double::error::roundoff() <= 1 as real,
        1_000_000_000 as real * crate::double::error::least_normal() <= 1 as real,
{
    crate::double::rounding::lemma_powers();
    crate::double::error::lemma_small();
    let e: Double = Double::tenth_of_billionth();
    let m: nat = 0x3ddb_7cdf_d9d7_bdbb;
    let one: nat = crate::double::one_units();
    assert(m / 0x0010_0000_0000_0000nat == 989);
    assert(m % 0x0010_0000_0000_0000nat == 0xb_7cdf_d9d7_bdbb);
    lemma_pow2_adds(86, 988);
    lemma_pow2_adds(64, 22);
    lemma2_to64();
    lemma2_to64_rest();
    assert(pow2(86) == 77371252455336267181195264);
    lemma_pow2_pos(988);
    crate::double::error::lemma_value(e);
    crate::double::error::lemma_cast_product(0x1b_7cdf_d9d7_bdbb, pow2(988) as int);
    crate::double::error::lemma_cast_product(pow2(86) as int, pow2(988) as int);
    let p: real = pow2(988) as real;
    let o: real = one as real;
    let v: real = e.value();
    let s: real = 0x1b_7cdf_d9d7_bdbb as real;
    assert(o == 77371252455336267181195264 as real * p);
    assert(v * o == s * p);
    assert(v * 77371252455336267181195264 as real == s) by (nonlinear_arith)
        requires
            v * o == s * p,
            o == 77371252455336267181195264 as real * p,
            p > 0 as real,
    ;
    let u: real = crate::double::error::roundoff();
    assert(1_000_000_000_000_000 as real * u <= 1 as real) by (nonlinear_arith)
        requires
            u == 1 as real / 9007199254740992 as real,
    ;
    lemma_pow2_strictly_increases(86, 1074);
    let w: real = crate::double::TWO_52 as real;
    let least: real = w / o;
    assert(1_000_000_000 as real * least <= 1 as real) by (nonlinear_arith)
        requires
            least == w / o,
            w == 4503599627370496 as real,
            o > 77371252455336267181195264 as real,
    ;
}

/// The value of a scale.
proof fn lemma_factor_value(places: nat)
    requires
        places <= SPOT_DECIMALS,
    ensures
        crate::liquid::client::decimal_factor(places as int).finite(),
        crate::liquid::client::decimal_factor(places as int).value() == pow(10, places) as real,
        1 as real <= pow(10, places) as real <= 100_000_000 as real,
{
    crate::liquid::laws::lemma_factor(places);
    crate::double::error::lemma_small();
    lemma_pow_increases(10, places, 8);
    reveal_with_fuel(pow, 9);
    let f: Double = crate::liquid::client::decimal_factor(places as int);
    crate::double::error::lemma_value(f);
    crate::double::error::lemma_cast_product(pow(10, places), crate::double::one_units() as int);
    let o: real = crate::double::one_units() as real;
    let v: real = f.value();
    let t: real = pow(10, places) as real;
    assert(v == t) by (nonlinear_arith)
        requires
            v * o == t * o,
            o > 0 as real,
    ;
}

/// The errors of rounding a number to whole steps and back.
proof fn lemma_step_errors(
    y: real,
    steps: real,
    e: real,
    moved: real,
    whole: real,
    t: real,
    result: real,
)
    requires
        y >= 0 as real,
        steps >= 0 as real,
        crate::double::error::size_of(e) * (10_000_000_000 as real) <= 2 as real,
        1 as real <= t <= 100_000_000 as real,
        crate::double::error::within(
            steps,
            y,
            crate::double::error::roundoff() * y + crate::double::error::half_unit(),
        ),
        crate::double::error::within(
            moved,
            steps + e,
            crate::double::error::roundoff() * crate::double::error::size_of(steps + e),
        ),
        crate::double::error::within(whole, moved, 1 as real),
        crate::double::error::within(
            result,
            whole / t,
            crate::double::error::roundoff() * crate::double::error::size_of(whole / t)
                + crate::double::error::half_unit(),
        ),
    ensures
        crate::double::error::within(
            moved,
            y + e,
            3 as real * (crate::double::error::roundoff() * y) + 3 as real
                * crate::double::error::roundoff(),
        ),
        crate::double::error::within(
            result * t,
            whole,
            2 as real * (crate::double::error::roundoff() * y) + 4 as real
                * crate::double::error::roundoff(),
        ),
{
    crate::double::error::lemma_small();
    lemma_epsilon();
    let u: real = crate::double::error::roundoff();
    let h: real = crate::double::error::half_unit();
    let least: real = crate::double::error::least_normal();
    crate::actors::pricing::estimates::lemma_share(y, y);
    let a: real = crate::double::error::size_of(steps + e);
    let bound: real = 2 as real * y + 1 as real;
    assert(a <= bound);
    crate::actors::pricing::estimates::lemma_share(a, bound);
    crate::double::error::lemma_mul(u, 2 as real * y, 1 as real);
    crate::double::error::lemma_mul(u, 2 as real, y);
    crate::double::error::lemma_mul(2 as real, u, y);
    assert(u * bound == 2 as real * (u * y) + u);
    // h is far below a rounding
    assert(1_000_000_000 as real * h <= u) by {
        crate::double::error::lemma_mul_order(1_000_000_000 as real * least, 1 as real, u);
        crate::double::error::lemma_mul(u, 1_000_000_000 as real, least);
        crate::double::error::lemma_mul(1_000_000_000 as real, u, least);
    }
    assert(crate::double::error::within(moved, y + e, 3 as real * (u * y) + 3 as real * u));
    let n: real = crate::double::error::size_of(whole);
    assert(n <= 2 as real * y + 2 as real);
    crate::actors::pricing::estimates::lemma_share(n, 2 as real * y + 2 as real);
    crate::double::error::lemma_mul(u, 2 as real * y, 2 as real);
    assert(u * n <= 2 as real * (u * y) + 2 as real * u);
    let ratio: real = whole / t;
    crate::double::error::lemma_divided(whole, t);
    crate::double::error::lemma_mul_size(t, ratio);
    let r: real = crate::double::error::size_of(ratio);
    assert(t * r == n);
    let d: real = result - ratio;
    let db: real = u * r + h;
    crate::double::error::lemma_mul_order(d, db, t);
    crate::double::error::lemma_mul_order(-db, d, t);
    crate::double::error::lemma_mul(t, 0 as real, db);
    crate::double::error::lemma_mul(t, result, ratio);
    crate::double::error::lemma_mul(t, u * r, h);
    crate::double::error::lemma_mul(t, u, r);
    crate::double::error::lemma_mul(u, t, r);
    assert(t * (u * r) == u * n);
    crate::double::error::lemma_mul_order(t, 100_000_000 as real, h);
    crate::double::error::lemma_mul(h, t, t);
    crate::double::error::lemma_mul(h, 100_000_000 as real, 0 as real);
    assert(t * h <= u);
}

/// Cutting a number off to `places` decimals, as the rules do it.
pub open spec fn cut_down(x: Double, places: int) -> Double {
    x.product(crate::liquid::client::decimal_factor(places)).sum(
        Double::tenth_of_billionth(),
    ).rounded_down().quotient(crate::liquid::client::decimal_factor(places))
}

/// Raising a number to `places` decimals, as the rules do it.
pub open spec fn raised_up(x: Double, places: int) -> Double {
    x.product(crate::liquid::client::decimal_factor(places)).difference(
        Double::tenth_of_billionth(),
    ).rounded_up().quotient(crate::liquid::client::decimal_factor(places))
}

/// Whether a number was brought down to whole steps: it is not above the number wanted, but for
/// the tolerance, and less than a step below it. `steps` is the number wanted in steps, `taken`
/// what is taken, in steps too.
pub open spec fn brought_down(steps: real, taken: real) -> bool {
    let slack: real = steps / 0x100_0000_0000 as real;
    &&& taken <= steps + slack + 3 as real / 10_000_000_000 as real
    &&& taken > steps - slack - 1 as real
}

/// Whether a number was brought up to whole steps, with the same tolerance.
pub open spec fn brought_up(steps: real, taken: real) -> bool {
    let slack: real = steps / 0x100_0000_0000 as real;
    &&& taken >= steps - slack - 3 as real / 10_000_000_000 as real
    &&& taken < steps + slack + 1 as real
}

proof fn lemma_cut_down(x: Double, places: nat)
    requires
        x.positive(),
        places <= SPOT_DECIMALS,
        cut_down(x, places as int).finite(),
    ensures
        brought_down(
            x.value() * (pow(10, places) as real),
            cut_down(x, places as int).value() * (pow(10, places) as real),
        ),
{
    let f: Double = crate::liquid::client::decimal_factor(places as int);
    let e: Double = Double::tenth_of_billionth();
    let steps: Double = x.product(f);
    let moved: Double = steps.sum(e);
    let whole: Double = moved.rounded_down();
    let result: Double = whole.quotient(f);
    lemma_factor_value(places);
    lemma_epsilon();
    crate::actors::pricing::values::lemma_positive(x);
    crate::actors::pricing::values::lemma_finite_parts(whole, f);
    crate::actors::pricing::values::lemma_finite_parts(steps, e);
    crate::actors::pricing::values::lemma_signs(x, f);
    crate::double::error::lemma_product_error(x, f);
    crate::double::error::lemma_sum_error(steps, e);
    lemma_rounded_values(moved);
    crate::double::error::lemma_quotient_error(whole, f);
    let t: real = pow(10, places) as real;
    let y: real = x.value() * t;
    assert(y >= 0 as real) by {
        crate::double::error::lemma_mul_order(0 as real, x.value(), t);
        crate::double::error::lemma_mul(t, x.value(), 0 as real);
        crate::double::error::lemma_mul(t, 0 as real, 0 as real);
    }
    lemma_step_errors(
        y,
        steps.value(),
        e.value(),
        moved.value(),
        whole.value(),
        t,
        result.value(),
    );
    crate::actors::pricing::values::lemma_tolerance(y);
}

proof fn lemma_raised_up(x: Double, places: nat)
    requires
        x.positive(),
        places <= SPOT_DECIMALS,
        raised_up(x, places as int).finite(),
    ensures
        brought_up(
            x.value() * (pow(10, places) as real),
            raised_up(x, places as int).value() * (pow(10, places) as real),
        ),
{
    let f: Double = crate::liquid::client::decimal_factor(places as int);
    let e: Double = Double::tenth_of_billionth();
    let steps: Double = x.product(f);
    let moved: Double = steps.difference(e);
    let whole: Double = moved.rounded_up();
    let result: Double = whole.quotient(f);
    lemma_factor_value(places);
    lemma_epsilon();
    crate::actors::pricing::values::lemma_positive(x);
    crate::actors::pricing::values::lemma_finite_parts(whole, f);
    crate::actors::pricing::values::lemma_finite_parts(steps, e);
    crate::actors::pricing::values::lemma_signs(x, f);
    crate::double::error::lemma_product_error(x, f);
    crate::double::error::lemma_difference_error(steps, e);
    lemma_rounded_values(moved);
    crate::double::error::lemma_quotient_error(whole, f);
    let t: real = pow(10, places) as real;
    let y: real = x.value() * t;
    assert(y >= 0 as real) by {
        crate::double::error::lemma_mul_order(0 as real, x.value(), t);
        crate::double::error::lemma_mul(t, x.value(), 0 as real);
        crate::double::error::lemma_mul(t, 0 as real, 0 as real);
    }
    lemma_step_errors(
        y,
        steps.value(),
        -e.value(),
        moved.value(),
        whole.value(),
        t,
        result.value(),
    );
    crate::actors::pricing::values::lemma_tolerance(y);
}

/// A number and the whole numbers next to it.
proof fn lemma_rounded_values(x: Double)
    requires
        !x.is_nan(),
    ensures
        x.rounded_down().finite() ==> x.finite(),
        x.rounded_up().finite() ==> x.finite(),
        x.rounded_down().value() <= x.value(),
        x.value() < x.rounded_down().value() + 1 as real,
        x.value() <= x.rounded_up().value(),
        x.rounded_up().value() < x.value() + 1 as real,
{
    crate::liquid::laws::lemma_rounded(x);
    crate::double::error::lemma_small();
    let down: Double = x.rounded_down();
    let up: Double = x.rounded_up();
    crate::double::error::lemma_order(down, x);
    crate::double::error::lemma_order(x, up);
    crate::double::error::lemma_value(x);
    crate::double::error::lemma_value(down);
    crate::double::error::lemma_value(up);
    let o: real = crate::double::one_units() as real;
    let a: real = x.value();
    let b: real = down.value();
    let c: real = up.value();
    assert(a < b + 1 as real) by (nonlinear_arith)
        requires
            a * o < b * o + o,
            o > 0 as real,
    ;
    assert(c < a + 1 as real) by (nonlinear_arith)
        requires
            c * o < a * o + o,
            o > 0 as real,
    ;
}

/// An order is for no more than the size wanted, and for less than a step below it; a buyer's
/// price is no lower than the one wanted and less than a step higher, a seller's no higher and
/// less than a step lower. All up to the tolerance; steps are those of the last decimal kept.
pub proof fn law_orders_are_brought_to_whole_steps(
    is_buy: bool,
    price: Double,
    size: Double,
    size_decimals: u8,
    order: NormalizedSpotOrder,
)
    requires
        crate::liquid::client::normalized_order(is_buy, price, size, size_decimals) == Ok::<
            NormalizedSpotOrder,
            OrderError,
        >(order),
        order.size.finite(),
        order.price.finite(),
    ensures
        ({
            let scale: real = pow(10, size_decimals as nat) as real;
            brought_down(size.value() * scale, order.size.value() * scale)
        }),
        ({
            let places: int = crate::liquid::client::price_places(price, size_decimals as int);
            let scale: real = pow(10, places as nat) as real;
            &&& 0 <= places <= 8 - size_decimals
            &&& is_buy ==> brought_up(price.value() * scale, order.price.value() * scale)
            &&& !is_buy ==> brought_down(price.value() * scale, order.price.value() * scale)
        }),
{
    let places: int = crate::liquid::client::price_places(price, size_decimals as int);
    assert(order.size == cut_down(size, size_decimals as int));
    lemma_cut_down(size, size_decimals as nat);
    if is_buy {
        assert(order.price == raised_up(price, places));
        lemma_raised_up(price, places as nat);
    } else {
        assert(order.price == cut_down(price, places));
        lemma_cut_down(price, places as nat);
    }
}

/// Where a price could keep another decimal, it already has four figures in front of its last one.
proof fn lemma_enough_figures(price: Double, size_decimals: u8)
    requires
        price.positive(),
        size_decimals <= SPOT_DECIMALS,
        crate::liquid::client::price_places(price, size_decimals as int) < SPOT_DECIMALS
            - size_decimals,
    ensures
        ({
            let places: int = crate::liquid::client::price_places(price, size_decimals as int);
            10_000 * crate::double::one_units() <= price.abs_units() * pow(10, places as nat)
        }),
{
    let places: int = crate::liquid::client::price_places(price, size_decimals as int);
    let p: nat = places as nat;
    let u: int = price.abs_units() as int;
    let one: int = crate::double::one_units() as int;
    let m: int = crate::decimal::magnitude::decimal_magnitude(price);
    crate::decimal::magnitude::lemma_has_magnitude(price);
    lemma_pow2_pos(1074);
    lemma_pow0(10);
    assert(pow(10, 4) == 10_000) by {
        reveal_with_fuel(pow, 5);
    }
    lemma_pow_positive(10, p);
    lemma_mul_basics(u);
    lemma_mul_basics(one);
    let t: int = pow(10, p);
    if m >= 0 {
        let k: nat = m as nat;
        lemma_pow_positive(10, k);
        let a: int = pow(10, k);
        assert(a * one <= u);
        if m >= 4 {
            lemma_pow_increases(10, 4, k);
            assert(10_000 * one <= u * t) by (nonlinear_arith)
                requires
                    a * one <= u,
                    10_000 <= a,
                    one > 0,
                    t == 1,
            ;
        } else {
            lemma_pow_adds(10, k, p);
            assert(a * t == 10_000);
            assert(10_000 * one <= u * t) by (nonlinear_arith)
                requires
                    a * one <= u,
                    a * t == 10_000,
                    t > 0,
            {
                assert((a * t) * one == (a * one) * t);
            }
        }
    } else {
        let k: nat = (-m) as nat;
        lemma_pow_positive(10, k);
        let a: int = pow(10, k);
        assert(one <= u * a);
        lemma_pow_adds(10, k, 4);
        assert(t == a * 10_000);
        assert(10_000 * one <= u * t) by (nonlinear_arith)
            requires
                one <= u * a,
                t == a * 10_000,
        {
            assert(u * (a * 10_000) == (u * a) * 10_000);
        }
    }
}

/// A price keeps five significant figures: where it keeps decimals it comes to at most 10^5 steps
/// of the last one, and to at least 10^4, unless the market allows no further decimal.
pub proof fn law_prices_keep_five_figures(price: Double, size_decimals: u8)
    requires
        price.positive(),
        size_decimals <= 8,
    ensures
        ({
            let places: int = crate::liquid::client::price_places(price, size_decimals as int);
            let steps: real = price.value() * (pow(10, places as nat) as real);
            &&& 0 <= places <= 8 - size_decimals
            &&& places > 0 ==> steps <= 100_000 as real
            &&& places < 8 - size_decimals ==> steps >= 10_000 as real
        }),
{
    let places: int = crate::liquid::client::price_places(price, size_decimals as int);
    let t: real = pow(10, places as nat) as real;
    let o: real = crate::double::one_units() as real;
    let v: real = price.value();
    let u: real = price.abs_units() as real;
    crate::actors::pricing::values::lemma_positive(price);
    crate::double::error::lemma_small();
    crate::double::error::lemma_value(price);
    crate::double::error::lemma_cast_product(price.abs_units() as int, pow(10, places as nat));
    if places > 0 {
        crate::liquid::laws::lemma_scaled_price(price, size_decimals);
        assert(v * t <= 100_000 as real) by (nonlinear_arith)
            requires
                u == v * o,
                u * t <= 100_000 as real * o,
                o > 0 as real,
        ;
    }
    if places < 8 - size_decimals {
        lemma_enough_figures(price, size_decimals);
        assert(v * t >= 10_000 as real) by (nonlinear_arith)
            requires
                u == v * o,
                u * t >= 10_000 as real * o,
                o > 0 as real,
        ;
    }
}

/// What is cut down to nothing was less than a step.
proof fn lemma_refused_size(size: Double, places: nat)
    requires
        size.positive(),
        places <= SPOT_DECIMALS,
        !Double::nought().less(cut_down(size, places as int)),
    ensures
        ({
            let steps: real = size.value() * (pow(10, places) as real);
            1 as real > steps - steps / 0x100_0000_0000 as real
        }),
{
    let f: Double = crate::liquid::client::decimal_factor(places as int);
    let e: Double = Double::tenth_of_billionth();
    let steps: Double = size.product(f);
    let moved: Double = steps.sum(e);
    let whole: Double = moved.rounded_down();
    let cut: Double = whole.quotient(f);
    lemma_factor_value(places);
    lemma_epsilon();
    crate::actors::pricing::laws::lemma_nought();
    crate::actors::pricing::values::lemma_positive(size);
    crate::double::error::lemma_order(Double::nought(), f);
    crate::double::error::lemma_order(Double::nought(), e);
    crate::actors::pricing::values::lemma_constants();
    assert(crate::double::laws::non_negative(steps));
    crate::double::laws::law_sum_grows(steps, e);
    assert(crate::double::laws::non_negative(whole));
    assert(f.positive());
    if whole.finite() {
        crate::double::laws::law_quotient_non_negative(whole, f);
    }
    if cut.infinite() {
        crate::double::rounding::lemma_units_monotone(0, cut.magnitude());
    }
    lemma_cut_down(size, places);
    crate::double::error::lemma_order(cut, Double::nought());
    let t: real = pow(10, places) as real;
    crate::double::error::lemma_mul_order(cut.value(), 0 as real, t);
    crate::double::error::lemma_mul(t, cut.value(), 0 as real);
    crate::double::error::lemma_mul(t, 0 as real, 0 as real);
}

/// An order needs a positive price, a positive size and at most eight decimals of size, looked at
/// in that order; what is then refused is a size below a step, up to the tolerance.
pub proof fn law_orders_are_refused_by_these_rules(
    is_buy: bool,
    price: Double,
    size: Double,
    size_decimals: u8,
)
    ensures
        ({
            let order: Result<NormalizedSpotOrder, OrderError> =
                crate::liquid::client::normalized_order(is_buy, price, size, size_decimals);
            let steps: real = size.value() * (pow(10, size_decimals as nat) as real);
            &&& !price.positive() <==> order == Err::<NormalizedSpotOrder, OrderError>(
                OrderError::PriceNotPositive,
            )
            &&& price.positive() && !size.positive() <==> order == Err::<
                NormalizedSpotOrder,
                OrderError,
            >(OrderError::SizeNotPositive)
            &&& price.positive() && size.positive() && size_decimals > 8 <==> order == Err::<
                NormalizedSpotOrder,
                OrderError,
            >(OrderError::TooManySizeDecimals)
            &&& order == Err::<NormalizedSpotOrder, OrderError>(
                OrderError::SizeTruncatedToZero,
            ) ==> 1 as real > steps - steps / 0x100_0000_0000 as real
            &&& order is Ok ==> Double::nought().less(order->Ok_0.size)
        }),
{
    let cut: Double = cut_down(size, size_decimals as int);
    if price.positive() && size.positive() && size_decimals <= 8 && !Double::nought().less(cut) {
        lemma_refused_size(size, size_decimals as nat);
    }
}

} // verus!
