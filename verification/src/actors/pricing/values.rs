//! What the economic rules compute, up to rounding, as formulas over real numbers.
use vstd::prelude::*;

use crate::actors::pricing::{ArbDirection, PricingError, Quotes};
use crate::double::Double;

verus! {

/// A rate in basis points as a fraction.
pub open spec fn fraction(rate: Double) -> real {
    rate.value() / 10000 as real
}

/// The values of the numbers that the rules are written with.
pub proof fn lemma_constants()
    ensures
        Double::basis_points().value() == 10000 as real,
        Double::one().value() == 1 as real,
        Double::nought().value() == 0 as real,
        Double::basis_points().finite(),
        Double::one().finite(),
{
    crate::actors::pricing::laws::lemma_basis_points();
    crate::actors::pricing::laws::lemma_nought();
    crate::double::laws::lemma_one();
    crate::double::error::lemma_small();
    let one: real = crate::double::one_units() as real;
    crate::double::error::lemma_cast_product(10000, crate::double::one_units() as int);
    assert((10000 as real * one) / one == 10000 as real && one / one == 1 as real && 0 as real / one
        == 0 as real) by (nonlinear_arith)
        requires
            one > 0 as real,
    ;
}

/// The value of a rate of at most twice ten thousand, and of what it is divided by ten thousand.
proof fn lemma_part_value(rate: Double)
    requires
        rate.finite(),
        Double::nought().at_most(rate),
        rate.units() <= 20000 * crate::double::one_units(),
    ensures
        0 as real <= fraction(rate) <= 2 as real,
        0 as real <= rate.value() <= 20000 as real,
        ({
            let part: Double = rate.quotient(Double::basis_points());
            &&& part.finite()
            &&& 0 as real <= part.value() <= 2 as real
            &&& crate::double::error::within(part.value(), fraction(rate), 3 as real * crate::double::error::roundoff())
        }),
{
    crate::actors::pricing::laws::lemma_rate_part(rate);
    lemma_constants();
    crate::double::error::lemma_small();
    let part: Double = rate.quotient(Double::basis_points());
    let one: real = crate::double::one_units() as real;
    crate::double::error::lemma_value(rate);
    crate::double::error::lemma_value(part);
    crate::double::error::lemma_order(Double::nought(), rate);
    crate::double::error::lemma_cast_product(20000, crate::double::one_units() as int);
    crate::double::error::lemma_cast_product(2, crate::double::one_units() as int);
    let r: real = rate.value();
    let q: real = part.value();
    assert(r <= 20000 as real) by (nonlinear_arith)
        requires
            r * one <= 20000 as real * one,
            one > 0 as real,
    ;
    assert(q <= 2 as real) by (nonlinear_arith)
        requires
            q * one <= 2 as real * one,
            one > 0 as real,
    ;
    assert(q >= 0 as real) by (nonlinear_arith)
        requires
            q * one >= 0 as real,
            one > 0 as real,
    ;
    crate::double::error::lemma_quotient_error(rate, Double::basis_points());
    let f: real = r / 10000 as real;
    assert(0 as real <= f <= 2 as real) by (nonlinear_arith)
        requires
            f == r / 10000 as real,
            0 as real <= r <= 20000 as real,
    ;
    let u: real = crate::double::error::roundoff();
    assert(u * f <= 2 as real * u) by (nonlinear_arith)
        requires
            f <= 2 as real,
            u > 0 as real,
    ;
}

/// One and a rate more, up to rounding.
pub proof fn lemma_raised_value(rate: Double)
    requires
        rate.finite(),
        Double::nought().at_most(rate),
        rate.units() <= 20000 * crate::double::one_units(),
    ensures
        crate::actors::pricing::raised_by(rate).finite(),
        1 as real <= crate::actors::pricing::raised_by(rate).value() <= 4 as real,
        0 as real <= fraction(rate) <= 2 as real,
        crate::double::error::within(
            crate::actors::pricing::raised_by(rate).value(),
            1 as real + fraction(rate),
            6 as real * crate::double::error::roundoff(),
        ),
{
    lemma_part_value(rate);
    lemma_constants();
    crate::double::error::lemma_small();
    crate::actors::pricing::laws::lemma_raised(rate);
    let part: Double = rate.quotient(Double::basis_points());
    crate::double::error::lemma_sum_error(Double::one(), part);
    crate::double::error::lemma_order(Double::one(), crate::actors::pricing::raised_by(rate));
    let q: real = part.value();
    let u: real = crate::double::error::roundoff();
    assert(0 as real <= u * (1 as real + q) <= 3 as real * u) by (nonlinear_arith)
        requires
            0 as real <= q <= 2 as real,
            u > 0 as real,
    ;
}

/// One and a rate less, up to rounding.
pub proof fn lemma_lowered_value(rate: Double)
    requires
        crate::actors::pricing::proper_rate(rate),
    ensures
        crate::actors::pricing::lowered_by(rate).finite(),
        0 as real <= crate::actors::pricing::lowered_by(rate).value() <= 1 as real,
        0 as real <= fraction(rate) <= 1 as real,
        crate::double::error::within(
            crate::actors::pricing::lowered_by(rate).value(),
            1 as real - fraction(rate),
            4 as real * crate::double::error::roundoff(),
        ),
{
    crate::actors::pricing::laws::lemma_basis_points();
    lemma_part_value(rate);
    lemma_constants();
    crate::double::error::lemma_small();
    crate::actors::pricing::laws::lemma_lowered(rate);
    crate::actors::pricing::laws::lemma_rate_part(rate);
    crate::double::laws::lemma_one();
    let part: Double = rate.quotient(Double::basis_points());
    let less: Double = crate::actors::pricing::lowered_by(rate);
    crate::double::laws::lemma_infinity_above_one();
    assert(less.finite());
    crate::double::error::lemma_difference_error(Double::one(), part);
    crate::double::error::lemma_order(less, Double::one());
    crate::double::error::lemma_order(Double::nought(), less);
    crate::double::error::lemma_order(part, Double::one());
    crate::double::error::lemma_order(rate, Double::basis_points());
    crate::actors::pricing::laws::lemma_nought();
    let q: real = part.value();
    let u: real = crate::double::error::roundoff();
    assert(0 as real <= u * (1 as real - q) <= u) by (nonlinear_arith)
        requires
            0 as real <= q <= 1 as real,
            u > 0 as real,
    ;
    let r: real = rate.value();
    assert(r / 10000 as real <= 1 as real) by (nonlinear_arith)
        requires
            r <= 10000 as real,
    ;
}

/// Whether two numbers are equal up to 2^-40 of a scale, which is more than rounding makes of
/// them.
pub open spec fn nearly(x: real, y: real, scale: real) -> bool {
    0x100_0000_0000 as real * crate::double::error::size_of(x - y) <= scale
}

/// What one rounding of a scale is to the tolerance.
pub proof fn lemma_tolerance(scale: real)
    requires
        scale >= 0 as real,
    ensures
        0x100_0000_0000 as real * (8192 as real * (crate::double::error::roundoff() * scale))
            == scale,
        crate::double::error::roundoff() * scale >= 0 as real,
{
    crate::double::error::lemma_small();
    let u: real = crate::double::error::roundoff();
    assert(0x100_0000_0000 as real * (8192 as real * u) == 1 as real) by (nonlinear_arith)
        requires
            u == 1 as real / 9007199254740992 as real,
    ;
    assert(0x100_0000_0000 as real * (8192 as real * (u * scale)) == scale) by (nonlinear_arith)
        requires
            0x100_0000_0000 as real * (8192 as real * u) == 1 as real,
    {
        assert(0x100_0000_0000 as real * (8192 as real * (u * scale)) == (0x100_0000_0000 as real
            * (8192 as real * u)) * scale);
    }
    assert(u * scale >= 0 as real) by (nonlinear_arith)
        requires
            u > 0 as real,
            scale >= 0 as real,
    ;
}

/// A number times a factor that is known up to rounding.
pub proof fn lemma_scaled(x: Double, factor: Double, exact: real)
    requires
        x.finite(),
        factor.finite(),
        x.product(factor).finite(),
        x.value() >= crate::double::error::least_normal(),
        0 as real <= factor.value() <= 4 as real,
        crate::double::error::within(
            factor.value(),
            exact,
            16 as real * crate::double::error::roundoff(),
        ),
    ensures
        crate::double::error::within(
            x.product(factor).value(),
            x.value() * exact,
            24 as real * (crate::double::error::roundoff() * x.value()),
        ),
        x.product(factor).value() >= 0 as real,
        x.product(factor).value() <= 5 as real * x.value(),
{
    crate::double::error::lemma_small();
    crate::double::error::lemma_product_error(x, factor);
    let u: real = crate::double::error::roundoff();
    let h: real = crate::double::error::half_unit();
    let least: real = crate::double::error::least_normal();
    let v: real = x.value();
    let f: real = factor.value();
    let w: real = u * v;
    assert(h <= w) by (nonlinear_arith)
        requires
            h == u * least,
            least <= v,
            u > 0 as real,
            w == u * v,
    ;
    assert(0 as real <= v * f <= 4 as real * v) by (nonlinear_arith)
        requires
            0 as real <= f <= 4 as real,
            v >= 0 as real,
    ;
    assert(u * (v * f) <= 4 as real * w) by (nonlinear_arith)
        requires
            v * f <= 4 as real * v,
            u > 0 as real,
            w == u * v,
    ;
    let gap: real = f - exact;
    assert(-(16 as real * w) <= v * gap <= 16 as real * w) by (nonlinear_arith)
        requires
            -(16 as real * u) <= gap <= 16 as real * u,
            v >= 0 as real,
            w == u * v,
    ;
    assert(v * gap == v * f - v * exact) by (nonlinear_arith)
        requires
            gap == f - exact,
    ;
    assert(w * 1_000_000 as real <= v) by (nonlinear_arith)
        requires
            w == u * v,
            1_000_000 as real * u <= 1 as real,
            v >= 0 as real,
    ;
    crate::double::error::lemma_value(x);
    crate::double::error::lemma_value(factor);
    crate::double::error::lemma_value(x.product(factor));
    lemma_signs(x, factor);
}

/// A product of two numbers that are not below zero is not below zero.
pub proof fn lemma_signs(a: Double, b: Double)
    requires
        a.finite(),
        b.finite(),
        a.value() >= 0 as real,
        b.value() >= 0 as real,
        a.product(b).finite(),
    ensures
        a.product(b).value() >= 0 as real,
{
    crate::double::error::lemma_small();
    let one: real = crate::double::one_units() as real;
    crate::double::error::lemma_value(a);
    crate::double::error::lemma_value(b);
    crate::double::error::lemma_value(a.product(b));
    crate::double::error::lemma_product_error(a, b);
    if a.value() == 0 as real || b.value() == 0 as real {
        let z: real = a.value() * b.value();
        assert(z == 0 as real) by (nonlinear_arith)
            requires
                z == a.value() * b.value(),
                a.value() == 0 as real || b.value() == 0 as real,
        ;
        let w: real = a.product(b).value();
        lemma_half_a_unit(a.product(b));
    } else {
        assert(!a.negative()) by {
            crate::double::error::lemma_order(a, Double::nought());
            lemma_constants();
            crate::actors::pricing::laws::lemma_nought();
        }
        assert(!b.negative()) by {
            crate::double::error::lemma_order(b, Double::nought());
            lemma_constants();
            crate::actors::pricing::laws::lemma_nought();
        }
    }
}

/// A double that is at most half the smallest positive one is zero.
proof fn lemma_half_a_unit(a: Double)
    requires
        a.finite(),
        crate::double::error::within(
            a.value(),
            0 as real,
            crate::double::error::roundoff() * (0 as real) + crate::double::error::half_unit(),
        ),
    ensures
        a.value() == 0 as real,
{
    crate::double::error::lemma_small();
    crate::double::error::lemma_value(a);
    let one: real = crate::double::one_units() as real;
    let h: real = crate::double::error::half_unit();
    let u: real = crate::double::error::roundoff();
    assert(u * (0 as real) == 0 as real) by (nonlinear_arith);
    let v: real = a.value();
    assert(h * (2 as real * one) == 1 as real) by (nonlinear_arith)
        requires
            h == 1 as real / (2 as real * one),
            one > 0 as real,
    ;
    assert(-(1 as real) < v * one && v * one < 1 as real) by (nonlinear_arith)
        requires
            -h <= v <= h,
            h * (2 as real * one) == 1 as real,
            one > 0 as real,
    ;
    assert(a.units() == 0);
    assert(0 as real / one == 0 as real) by (nonlinear_arith)
        requires
            one > 0 as real,
    ;
}

/// The worst price of a bought hedge is the ask and the slippage on top; that of a sold one is the
/// bid less the slippage.
pub proof fn law_worst_price_is_the_book_price_with_slippage(
    direction: ArbDirection,
    bid: Double,
    ask: Double,
    slippage: Double,
    price: Double,
)
    requires
        crate::actors::pricing::worst_price_result(direction, bid, ask, slippage) == Ok::<
            Double,
            PricingError,
        >(price),
        price.finite(),
        bid.value() >= crate::double::error::least_normal(),
        ask.value() >= crate::double::error::least_normal(),
    ensures
        direction == ArbDirection::BuyDiff ==> nearly(
            price.value(),
            ask.value() * (1 as real + slippage.value() / 10000 as real),
            ask.value(),
        ),
        direction == ArbDirection::SellDiff ==> nearly(
            price.value(),
            bid.value() * (1 as real - slippage.value() / 10000 as real),
            bid.value(),
        ),
{
    crate::double::error::lemma_small();
    crate::actors::pricing::laws::lemma_basis_points();
    lemma_tolerance(ask.value());
    lemma_tolerance(bid.value());
    match direction {
        ArbDirection::BuyDiff => {
            lemma_raised_value(slippage);
            lemma_scaled(
                ask,
                crate::actors::pricing::raised_by(slippage),
                1 as real + fraction(slippage),
            );
        },
        ArbDirection::SellDiff => {
            lemma_lowered_value(slippage);
            lemma_scaled(
                bid,
                crate::actors::pricing::lowered_by(slippage),
                1 as real - fraction(slippage),
            );
        },
    }
}

/// A product or a sum is finite only where both of its parts are.
pub proof fn lemma_finite_parts(a: Double, b: Double)
    ensures
        a.product(b).finite() ==> a.finite() && b.finite(),
        a.sum(b).finite() ==> a.finite() && b.finite(),
        a.difference(b).finite() ==> a.finite() && b.finite(),
        a.quotient(b).finite() ==> a.finite(),
{
    assert(b.opposite().magnitude() == b.magnitude());
}

/// A product of two positive numbers that is large enough not to lose digits.
pub proof fn lemma_plain_product(a: Double, b: Double)
    requires
        a.finite(),
        b.finite(),
        a.product(b).finite(),
        a.value() * b.value() >= crate::double::error::least_normal(),
    ensures
        crate::double::error::within(
            a.product(b).value(),
            a.value() * b.value(),
            2 as real * (crate::double::error::roundoff() * (a.value() * b.value())),
        ),
{
    crate::double::error::lemma_small();
    crate::double::error::lemma_product_error(a, b);
    let u: real = crate::double::error::roundoff();
    let h: real = crate::double::error::half_unit();
    let least: real = crate::double::error::least_normal();
    let v: real = a.value() * b.value();
    assert(h <= u * v) by (nonlinear_arith)
        requires
            h == u * least,
            least <= v,
            u > 0 as real,
    ;
}

proof fn lemma_sum_of_rates(fee: Double, buffer: Double)
    requires
        crate::actors::pricing::proper_rate(fee),
        crate::actors::pricing::proper_rate(buffer),
    ensures
        crate::actors::pricing::raised_by(fee.sum(buffer)).finite(),
        1 as real <= crate::actors::pricing::raised_by(fee.sum(buffer)).value() <= 4 as real,
        1 as real <= 1 as real + fraction(fee) + fraction(buffer) <= 3 as real,
        crate::double::error::within(
            crate::actors::pricing::raised_by(fee.sum(buffer)).value(),
            1 as real + fraction(fee) + fraction(buffer),
            16 as real * crate::double::error::roundoff(),
        ),
{
    crate::double::error::lemma_small();
    crate::actors::pricing::laws::lemma_basis_points();
    crate::actors::pricing::laws::lemma_nought();
    crate::actors::pricing::laws::lemma_twenty_thousand(fee, buffer);
    crate::double::laws::law_sum_grows(fee, buffer);
    lemma_part_value(fee);
    lemma_part_value(buffer);
    lemma_raised_value(fee.sum(buffer));
    lemma_lowered_value(fee);
    lemma_lowered_value(buffer);
    crate::double::error::lemma_sum_error(fee, buffer);
    let u: real = crate::double::error::roundoff();
    let a: real = fee.value();
    let b: real = buffer.value();
    let s: real = fee.sum(buffer).value();
    assert(u * (a + b) <= 40000 as real * u) by (nonlinear_arith)
        requires
            0 as real <= a <= 20000 as real,
            0 as real <= b <= 20000 as real,
            u > 0 as real,
    ;
    assert(s / 10000 as real - (a / 10000 as real + b / 10000 as real) == (s - (a + b))
        / 10000 as real) by (nonlinear_arith);
    let gap: real = s - (a + b);
    assert(-(4 as real * u) <= gap / 10000 as real <= 4 as real * u) by (nonlinear_arith)
        requires
            -(40000 as real * u) <= gap <= 40000 as real * u,
    ;
}

/// The errors of the least output of a sale on chain add up to less than the tolerance.
proof fn lemma_buy_floor_errors(
    x: real,
    c: real,
    f: real,
    exact: real,
    raised: real,
    gas: real,
    floor: real,
)
    requires
        x >= crate::double::error::least_normal(),
        gas >= 0 as real,
        1 as real <= f <= 4 as real,
        1 as real <= exact <= 3 as real,
        crate::double::error::within(c, x, 2 as real * (crate::double::error::roundoff() * x)),
        crate::double::error::within(f, exact, 16 as real * crate::double::error::roundoff()),
        crate::double::error::within(
            raised,
            c * f,
            crate::double::error::roundoff() * crate::double::error::size_of(c * f)
                + crate::double::error::half_unit(),
        ),
        crate::double::error::within(
            floor,
            raised + gas,
            crate::double::error::roundoff() * crate::double::error::size_of(raised + gas),
        ),
    ensures
        nearly(floor, x * exact + gas, x + gas),
{
    crate::double::error::lemma_small();
    let u: real = crate::double::error::roundoff();
    let h: real = crate::double::error::half_unit();
    let least: real = crate::double::error::least_normal();
    let w: real = u * x;
    let g: real = u * gas;
    assert(h <= w && 1_000_000 as real * w <= x && g >= 0 as real) by (nonlinear_arith)
        requires
            h == u * least,
            least <= x,
            u > 0 as real,
            w == u * x,
            g == u * gas,
            gas >= 0 as real,
            x >= 0 as real,
            1_000_000 as real * u <= 1 as real,
    ;
    let e: real = c - x;
    assert(-(8 as real * w) <= e * f <= 8 as real * w) by (nonlinear_arith)
        requires
            -(2 as real * w) <= e <= 2 as real * w,
            1 as real <= f <= 4 as real,
            w >= 0 as real,
    ;
    assert(e * f == c * f - x * f) by (nonlinear_arith)
        requires
            e == c - x,
    ;
    let d: real = f - exact;
    assert(-(16 as real * w) <= x * d <= 16 as real * w) by (nonlinear_arith)
        requires
            -(16 as real * u) <= d <= 16 as real * u,
            w == u * x,
            x >= 0 as real,
    ;
    assert(x * d == x * f - x * exact) by (nonlinear_arith)
        requires
            d == f - exact,
    ;
    assert(x <= x * exact <= 3 as real * x) by (nonlinear_arith)
        requires
            1 as real <= exact <= 3 as real,
            x >= 0 as real,
    ;
    let p: real = c * f;
    assert(0 as real <= p <= 4 as real * x);
    assert(u * p <= 4 as real * w) by (nonlinear_arith)
        requires
            p <= 4 as real * x,
            u > 0 as real,
            w == u * x,
    ;
    assert(0 as real <= raised <= 4 as real * x);
    assert(0 as real <= u * (raised + gas) <= 4 as real * w + g) by (nonlinear_arith)
        requires
            0 as real <= raised <= 4 as real * x,
            gas >= 0 as real,
            u > 0 as real,
            w == u * x,
            g == u * gas,
    ;
    lemma_tolerance(x);
    lemma_tolerance(gas);
}

/// What selling on chain must bring is the cost of the hedge at its worst price, with fee and
/// buffer on top, and the gas.
pub proof fn law_buy_floor_is_cost_fee_buffer_and_gas(
    hedge_size: Double,
    worst: Double,
    fee: Double,
    buffer: Double,
    gas: Double,
    floor: Double,
)
    requires
        crate::actors::pricing::buy_floor_result(hedge_size, worst, fee, buffer, gas) == Ok::<
            Double,
            PricingError,
        >(floor),
        floor.finite(),
        hedge_size.value() * worst.value() >= crate::double::error::least_normal(),
    ensures
        ({
            let cost: real = hedge_size.value() * worst.value();
            nearly(
                floor.value(),
                cost * (1 as real + fee.value() / 10000 as real + buffer.value() / 10000 as real)
                    + gas.value(),
                cost + gas.value(),
            )
        }),
{
    let cost: Double = hedge_size.product(worst);
    let factor: Double = crate::actors::pricing::raised_by(fee.sum(buffer));
    let raised: Double = cost.product(factor);
    lemma_finite_parts(raised, gas);
    lemma_finite_parts(cost, factor);
    lemma_constants();
    crate::double::error::lemma_order(Double::nought(), gas);
    lemma_plain_product(hedge_size, worst);
    lemma_sum_of_rates(fee, buffer);
    crate::double::error::lemma_product_error(cost, factor);
    crate::double::error::lemma_sum_error(raised, gas);
    lemma_buy_floor_errors(
        hedge_size.value() * worst.value(),
        cost.value(),
        factor.value(),
        1 as real + fraction(fee) + fraction(buffer),
        raised.value(),
        gas.value(),
        floor.value(),
    );
}

/// The errors of the least output of a purchase on chain add up to less than the tolerance.
proof fn lemma_sell_floor_errors(
    spent: real,
    exact: real,
    raised: real,
    gas: real,
    required: real,
    worst: real,
    less: real,
    net: real,
    floor: real,
)
    requires
        spent >= 0 as real,
        gas >= 0 as real,
        worst >= 0 as real,
        net > 0 as real,
        net <= 5 as real * worst,
        floor >= crate::double::error::least_normal(),
        1 as real <= exact <= 3 as real,
        crate::double::error::within(
            raised,
            spent * exact,
            24 as real * (crate::double::error::roundoff() * spent),
        ),
        crate::double::error::within(
            required,
            raised + gas,
            crate::double::error::roundoff() * crate::double::error::size_of(raised + gas),
        ),
        crate::double::error::within(
            net,
            worst * less,
            24 as real * (crate::double::error::roundoff() * worst),
        ),
        crate::double::error::within(
            floor,
            required / net,
            crate::double::error::roundoff() * crate::double::error::size_of(required / net)
                + crate::double::error::half_unit(),
        ),
    ensures
        nearly(floor * (worst * less), spent * exact + gas, spent + gas + floor * worst),
{
    crate::double::error::lemma_small();
    let u: real = crate::double::error::roundoff();
    let h: real = crate::double::error::half_unit();
    let least: real = crate::double::error::least_normal();
    let w: real = u * spent;
    let g: real = u * gas;
    let fw: real = floor * worst;
    let k: real = u * fw;
    assert(1_000_000 as real * w <= spent && w >= 0 as real && g >= 0 as real) by (nonlinear_arith)
        requires
            u > 0 as real,
            w == u * spent,
            g == u * gas,
            gas >= 0 as real,
            spent >= 0 as real,
            1_000_000 as real * u <= 1 as real,
    ;
    assert(fw >= 0 as real && k >= 0 as real) by (nonlinear_arith)
        requires
            fw == floor * worst,
            k == u * fw,
            floor >= 0 as real,
            worst >= 0 as real,
            u > 0 as real,
    ;
    assert(spent <= spent * exact <= 3 as real * spent) by (nonlinear_arith)
        requires
            1 as real <= exact <= 3 as real,
            spent >= 0 as real,
    ;
    assert(0 as real <= raised <= 4 as real * spent);
    assert(0 as real <= u * (raised + gas) <= 4 as real * w + g) by (nonlinear_arith)
        requires
            0 as real <= raised <= 4 as real * spent,
            gas >= 0 as real,
            u > 0 as real,
            w == u * spent,
            g == u * gas,
    ;
    assert(crate::double::error::within(required, spent * exact + gas, 28 as real * w + g));
    let ratio: real = required / net;
    assert(ratio * net == required) by (nonlinear_arith)
        requires
            ratio == required / net,
            net > 0 as real,
    ;
    let off: real = floor - ratio;
    // The quotient is known up to a relative rounding and half a unit, both small beside it.
    assert(h <= u * floor) by (nonlinear_arith)
        requires
            h == u * least,
            least <= floor,
            u > 0 as real,
    ;
    let r: real = crate::double::error::size_of(ratio);
    let uf: real = u * floor;
    let ur: real = u * r;
    assert(1_000_000 as real * ur <= r && ur >= 0 as real && 1_000_000 as real * uf <= floor) by (
        nonlinear_arith)
        requires
            ur == u * r,
            uf == u * floor,
            r >= 0 as real,
            floor >= 0 as real,
            u > 0 as real,
            1_000_000 as real * u <= 1 as real,
    ;
    assert(r <= 2 as real * floor);
    assert(ur <= 2 as real * uf) by (nonlinear_arith)
        requires
            r <= 2 as real * floor,
            ur == u * r,
            uf == u * floor,
            u > 0 as real,
    ;
    assert(-(3 as real * uf) <= off <= 3 as real * uf);
    assert(-(15 as real * k) <= off * net <= 15 as real * k) by (nonlinear_arith)
        requires
            -(3 as real * uf) <= off <= 3 as real * uf,
            0 as real <= net <= 5 as real * worst,
            uf == u * floor,
            k == u * fw,
            fw == floor * worst,
            uf >= 0 as real,
            worst >= 0 as real,
    {
        assert(uf * net <= uf * (5 as real * worst));
        assert(uf * (5 as real * worst) == 5 as real * k);
        assert(off * net <= (3 as real * uf) * net);
        assert(off * net >= -((3 as real * uf) * net));
        assert((3 as real * uf) * net == 3 as real * (uf * net));
    }
    assert(off * net == floor * net - required) by (nonlinear_arith)
        requires
            off == floor - ratio,
            ratio * net == required,
    ;
    let e: real = net - worst * less;
    let uw: real = u * worst;
    assert(-(24 as real * k) <= floor * e <= 24 as real * k) by (nonlinear_arith)
        requires
            -(24 as real * uw) <= e <= 24 as real * uw,
            floor >= 0 as real,
            uw == u * worst,
            k == u * fw,
            fw == floor * worst,
    {
        assert(floor * uw == k);
    }
    assert(floor * e == floor * net - floor * (worst * less)) by (nonlinear_arith)
        requires
            e == net - worst * less,
    ;
    lemma_tolerance(spent);
    lemma_tolerance(gas);
    lemma_tolerance(fw);
}

/// What spending on chain must bring, sold at the worst price less the fee, is what was spent with
/// the buffer on top, and the gas.
pub proof fn law_sell_floor_pays_back_buffer_and_gas(
    spent: Double,
    worst: Double,
    fee: Double,
    buffer: Double,
    gas: Double,
    floor: Double,
)
    requires
        crate::actors::pricing::sell_floor_result(spent, worst, fee, buffer, gas) == Ok::<
            Double,
            PricingError,
        >(floor),
        floor.finite(),
        spent.value() >= crate::double::error::least_normal(),
        worst.value() >= crate::double::error::least_normal(),
        floor.value() >= crate::double::error::least_normal(),
    ensures
        nearly(
            floor.value() * (worst.value() * (1 as real - fee.value() / 10000 as real)),
            spent.value() * (1 as real + buffer.value() / 10000 as real) + gas.value(),
            spent.value() + gas.value() + floor.value() * worst.value(),
        ),
{
    let raise: Double = crate::actors::pricing::raised_by(buffer);
    let raised: Double = spent.product(raise);
    let required: Double = raised.sum(gas);
    let lower: Double = crate::actors::pricing::lowered_by(fee);
    let net: Double = worst.product(lower);
    crate::double::error::lemma_small();
    lemma_finite_parts(required, net);
    lemma_finite_parts(raised, gas);
    lemma_constants();
    crate::actors::pricing::laws::lemma_basis_points();
    crate::actors::pricing::laws::lemma_nought();
    crate::double::error::lemma_order(Double::nought(), gas);
    lemma_raised_value(buffer);
    lemma_lowered_value(fee);
    lemma_scaled(spent, raise, 1 as real + fraction(buffer));
    crate::actors::pricing::laws::lemma_lowered(fee);
    crate::double::rounding::lemma_order_of_bits(0, worst.magnitude());
    crate::double::laws::law_product_shrinks(worst, lower);
    lemma_not_infinite(net, worst);
    lemma_scaled(worst, lower, 1 as real - fraction(fee));
    crate::double::error::lemma_sum_error(raised, gas);
    lemma_divisor(required, net);
    crate::double::error::lemma_quotient_error(required, net);
    lemma_sell_floor_errors(
        spent.value(),
        1 as real + fraction(buffer),
        raised.value(),
        gas.value(),
        required.value(),
        worst.value(),
        1 as real - fraction(fee),
        net.value(),
        floor.value(),
    );
}

/// What is at most a finite number is not infinite.
pub proof fn lemma_not_infinite(a: Double, b: Double)
    requires
        crate::double::laws::non_negative(a),
        a.at_most(b),
        b.finite(),
    ensures
        a.finite(),
{
    if a.infinite() {
        if a.negative() {
            crate::double::rounding::lemma_powers();
            crate::double::rounding::lemma_units_monotone(0, a.magnitude());
        }
        crate::double::rounding::lemma_units_monotone(b.magnitude(), a.magnitude());
    }
}

/// A quotient that is finite had a divisor other than zero.
pub proof fn lemma_divisor(a: Double, b: Double)
    requires
        a.finite(),
        b.finite(),
        a.quotient(b).finite(),
    ensures
        b.value() != 0 as real,
{
    crate::double::error::lemma_value(b);
    if b.value() == 0 as real {
        let one: real = crate::double::one_units() as real;
        assert(b.value() * one == 0 as real) by (nonlinear_arith)
            requires
                b.value() == 0 as real,
        ;
        assert(b.units() == 0);
        crate::double::rounding::lemma_powers();
        if !b.zero() {
            crate::double::rounding::lemma_units_monotone(0, b.magnitude());
        }
    }
}

/// How far `above` lies above `below`, in basis points of `above`, as the rules compute it.
pub open spec fn spread(above: Double, below: Double) -> Double {
    above.difference(below).quotient(above).product(Double::basis_points())
}

/// The errors of a spread add up to less than the tolerance.
proof fn lemma_spread_errors(x: real, y: real, d: real, q: real, r: real)
    requires
        x > 0 as real,
        crate::double::error::within(
            d,
            x - y,
            crate::double::error::roundoff() * crate::double::error::size_of(x - y),
        ),
        crate::double::error::within(
            q,
            d / x,
            crate::double::error::roundoff() * crate::double::error::size_of(d / x)
                + crate::double::error::half_unit(),
        ),
        crate::double::error::within(
            r,
            q * (10000 as real),
            crate::double::error::roundoff() * crate::double::error::size_of(q * (10000 as real))
                + crate::double::error::half_unit(),
        ),
    ensures
        crate::double::error::within(
            r * x,
            10000 as real * (x - y),
            80000 as real * (crate::double::error::roundoff() * (x + crate::double::error::size_of(
                y,
            ))),
        ),
        crate::double::error::size_of(r * x) <= 20000 as real * (x + crate::double::error::size_of(y)),
{
    crate::double::error::lemma_small();
    let u: real = crate::double::error::roundoff();
    let h: real = crate::double::error::half_unit();
    let s: real = x + crate::double::error::size_of(y);
    let w: real = u * s;
    let a: real = crate::double::error::size_of(x - y);
    let ua: real = u * a;
    assert(0 as real <= ua <= w && 1_000_000 as real * w <= s && u * x <= w) by (nonlinear_arith)
        requires
            0 as real <= a <= s,
            ua == u * a,
            w == u * s,
            u > 0 as real,
            1_000_000 as real * u <= 1 as real,
            s >= 0 as real,
            x <= s,
    ;
    let hx: real = h * x;
    assert(0 as real <= hx <= w) by (nonlinear_arith)
        requires
            hx == h * x,
            0 as real <= h <= u,
            x >= 0 as real,
            u * x <= w,
    ;
    // d / x, times x
    let p: real = d / x;
    assert(p * x == d) by (nonlinear_arith)
        requires
            p == d / x,
            x > 0 as real,
    ;
    let ap: real = crate::double::error::size_of(p);
    let ad: real = crate::double::error::size_of(d);
    assert(ap * x == ad) by (nonlinear_arith)
        requires
            p * x == d,
            x > 0 as real,
            ap == p || ap == -p,
            ap >= 0 as real,
            ad == d || ad == -d,
            ad >= 0 as real,
    ;
    assert(ad <= 2 as real * s);
    let uad: real = u * ad;
    assert(0 as real <= uad <= 2 as real * w) by (nonlinear_arith)
        requires
            0 as real <= ad <= 2 as real * s,
            uad == u * ad,
            w == u * s,
            u > 0 as real,
    ;
    let e: real = q - p;
    let eb: real = u * ap + h;
    assert(eb * x == uad + hx) by (nonlinear_arith)
        requires
            eb == u * ap + h,
            ap * x == ad,
            uad == u * ad,
            hx == h * x,
    ;
    assert(-(3 as real * w) <= e * x <= 3 as real * w) by (nonlinear_arith)
        requires
            -eb <= e <= eb,
            x > 0 as real,
            eb * x == uad + hx,
            uad + hx <= 3 as real * w,
    ;
    assert(e * x == q * x - d) by (nonlinear_arith)
        requires
            e == q - p,
            p * x == d,
    ;
    assert(crate::double::error::within(q * x, x - y, 4 as real * w));
    // times ten thousand
    let aq: real = crate::double::error::size_of(q);
    let aqx: real = crate::double::error::size_of(q * x);
    assert(aq * x == aqx) by (nonlinear_arith)
        requires
            x > 0 as real,
            aq == q || aq == -q,
            aq >= 0 as real,
            aqx == q * x || aqx == -(q * x),
            aqx >= 0 as real,
    ;
    assert(aqx <= s + 4 as real * w);
    let f: real = r - q * (10000 as real);
    let fb: real = u * (10000 as real * aq) + h;
    assert(-fb <= f <= fb) by {
        assert(crate::double::error::size_of(q * (10000 as real)) == 10000 as real * aq);
    }
    let uq: real = u * aqx;
    assert(0 as real <= uq <= 2 as real * w) by (nonlinear_arith)
        requires
            0 as real <= aqx <= 2 as real * s,
            uq == u * aqx,
            w == u * s,
            u > 0 as real,
    ;
    assert(fb * x == 10000 as real * uq + hx) by (nonlinear_arith)
        requires
            fb == u * (10000 as real * aq) + h,
            aq * x == aqx,
            uq == u * aqx,
            hx == h * x,
    ;
    assert(-(20001 as real * w) <= f * x <= 20001 as real * w) by (nonlinear_arith)
        requires
            -fb <= f <= fb,
            x > 0 as real,
            fb * x == 10000 as real * uq + hx,
            uq <= 2 as real * w,
            hx <= w,
    ;
    assert(f * x == r * x - 10000 as real * (q * x)) by (nonlinear_arith)
        requires
            f == r - q * (10000 as real),
    ;
}

/// A spread is the difference of the two values, in ten thousandths of the first.
pub proof fn lemma_spread(above: Double, below: Double)
    requires
        above.finite(),
        below.finite(),
        above.value() > 0 as real,
        spread(above, below).finite(),
    ensures
        crate::double::error::within(
            spread(above, below).value() * above.value(),
            10000 as real * (above.value() - below.value()),
            80000 as real * (crate::double::error::roundoff() * (above.value()
                + crate::double::error::size_of(below.value()))),
        ),
        crate::double::error::size_of(spread(above, below).value() * above.value())
            <= 20000 as real * (above.value() + crate::double::error::size_of(below.value())),
{
    let d: Double = above.difference(below);
    let q: Double = d.quotient(above);
    lemma_finite_parts(q, Double::basis_points());
    lemma_finite_parts(d, above);
    lemma_constants();
    crate::double::error::lemma_difference_error(above, below);
    crate::double::error::lemma_quotient_error(d, above);
    crate::double::error::lemma_product_error(q, Double::basis_points());
    lemma_spread_errors(
        above.value(),
        below.value(),
        d.value(),
        q.value(),
        spread(above, below).value(),
    );
}

/// The price differences are taken where the trade sells: on chain for the one direction, on the
/// order book for the other.
pub proof fn law_differences_are_relative_to_the_selling_price(q: Quotes)
    requires
        q.sound(),
    ensures
        q.buy_diff().finite() ==> nearly(
            q.buy_diff().value() * q.evm_sell.value(),
            10000 as real * (q.evm_sell.value() - q.ask.value()),
            10000 as real * (q.evm_sell.value() + q.ask.value()),
        ),
        q.sell_diff().finite() ==> nearly(
            q.sell_diff().value() * q.bid.value(),
            10000 as real * (q.bid.value() - q.evm_buy.value()),
            10000 as real * (q.bid.value() + q.evm_buy.value()),
        ),
{
    lemma_positive(q.evm_sell);
    lemma_positive(q.evm_buy);
    lemma_positive(q.bid);
    lemma_positive(q.ask);
    lemma_tolerance(q.evm_sell.value() + q.ask.value());
    lemma_tolerance(q.bid.value() + q.evm_buy.value());
    if q.buy_diff().finite() {
        lemma_spread(q.evm_sell, q.ask);
    }
    if q.sell_diff().finite() {
        lemma_spread(q.bid, q.evm_buy);
    }
}

/// The value of a positive double is positive.
pub proof fn lemma_positive(a: Double)
    requires
        a.positive(),
    ensures
        a.finite(),
        a.value() > 0 as real,
{
    lemma_constants();
    crate::double::rounding::lemma_powers();
    crate::double::rounding::lemma_units_monotone(0, a.magnitude());
    crate::actors::pricing::laws::lemma_nought();
    crate::double::error::lemma_order(Double::nought(), a);
}

/// The errors of the threshold of a sale on chain add up to less than the tolerance.
proof fn lemma_buy_economic_errors(target: real, size: real, ask: real, p: real, e: real)
    requires
        target > 0 as real,
        size > 0 as real,
        ask > 0 as real,
        p >= crate::double::error::least_normal(),
        crate::double::error::within(
            p,
            target / size,
            crate::double::error::roundoff() * crate::double::error::size_of(target / size)
                + crate::double::error::half_unit(),
        ),
        crate::double::error::within(
            e * p,
            10000 as real * (p - ask),
            80000 as real * (crate::double::error::roundoff() * (p + ask)),
        ),
        crate::double::error::size_of(e * p) <= 20000 as real * (p + ask),
    ensures
        nearly(
            e * target,
            10000 as real * (target - size * ask),
            10000 as real * (target + size * ask),
        ),
{
    crate::double::error::lemma_small();
    let u: real = crate::double::error::roundoff();
    let h: real = crate::double::error::half_unit();
    let least: real = crate::double::error::least_normal();
    let ratio: real = target / size;
    assert(ratio * size == target && ratio > 0 as real) by (nonlinear_arith)
        requires
            ratio == target / size,
            size > 0 as real,
            target > 0 as real,
    ;
    let up: real = u * p;
    let ur: real = u * ratio;
    assert(h <= up && 1_000_000 as real * up <= p && 1_000_000 as real * ur <= ratio && ur >= 0 as real)
        by (nonlinear_arith)
        requires
            h == u * least,
            least <= p,
            u > 0 as real,
            up == u * p,
            ur == u * ratio,
            ratio > 0 as real,
            p > 0 as real,
            1_000_000 as real * u <= 1 as real,
    ;
    assert(ratio <= 2 as real * p && p <= 2 as real * ratio);
    assert(ur <= 2 as real * up) by (nonlinear_arith)
        requires
            ratio <= 2 as real * p,
            ur == u * ratio,
            up == u * p,
            u > 0 as real,
    ;
    let d: real = ratio - p;
    assert(-(3 as real * up) <= d <= 3 as real * up);
    // e * ratio against e * p
    let ep: real = crate::double::error::size_of(e * p);
    let ae: real = crate::double::error::size_of(e);
    let s: real = p + ask;
    assert(ae * p == ep) by (nonlinear_arith)
        requires
            p > 0 as real,
            ae == e || ae == -e,
            ae >= 0 as real,
            ep == e * p || ep == -(e * p),
            ep >= 0 as real,
    ;
    let w: real = u * s;
    assert(ae * up <= 20000 as real * w) by (nonlinear_arith)
        requires
            ae * p == ep,
            ep <= 20000 as real * s,
            up == u * p,
            w == u * s,
            u > 0 as real,
    {
        assert(ae * up == u * ep);
    }
    assert(-(60000 as real * w) <= e * d <= 60000 as real * w) by (nonlinear_arith)
        requires
            -(3 as real * up) <= d <= 3 as real * up,
            ae == e || ae == -e,
            ae >= 0 as real,
            ae * up <= 20000 as real * w,
            up >= 0 as real,
    {
        assert(e * d <= ae * (3 as real * up));
        assert(e * d >= -(ae * (3 as real * up)));
        assert(ae * (3 as real * up) == 3 as real * (ae * up));
    }
    assert(e * d == e * ratio - e * p) by (nonlinear_arith)
        requires
            d == ratio - p,
    ;
    assert(up <= w) by (nonlinear_arith)
        requires
            up == u * p,
            w == u * s,
            p <= s,
            u > 0 as real,
    ;
    let gap: real = e * ratio - 10000 as real * (ratio - ask);
    assert(-(200000 as real * w) <= gap <= 200000 as real * w);
    // times the size
    let sw: real = w * size;
    assert(gap * size == e * target - 10000 as real * (target - size * ask)) by (nonlinear_arith)
        requires
            gap == e * ratio - 10000 as real * (ratio - ask),
            ratio * size == target,
    {
        assert((e * ratio) * size == e * (ratio * size));
    }
    assert(-(200000 as real * sw) <= gap * size <= 200000 as real * sw) by (nonlinear_arith)
        requires
            -(200000 as real * w) <= gap <= 200000 as real * w,
            sw == w * size,
            size > 0 as real,
    ;
    let total: real = target + size * ask;
    assert(sw <= 2 as real * (u * total) && total >= 0 as real) by (nonlinear_arith)
        requires
            sw == w * size,
            w == u * s,
            s == p + ask,
            p <= 2 as real * ratio,
            ratio * size == target,
            total == target + size * ask,
            size > 0 as real,
            ask > 0 as real,
            target > 0 as real,
            u > 0 as real,
    {
        assert(s * size <= 2 as real * total) by {
            assert(p * size <= 2 as real * (ratio * size));
            assert(s * size == p * size + ask * size);
        }
        assert(sw == u * (s * size));
    }
    lemma_tolerance(total);
}

/// The threshold of a sale on chain is the difference at which the proceeds are just the target.
pub proof fn law_buy_threshold_is_where_the_target_is_met(size: Double, ask: Double, target: Double)
    requires
        size.positive(),
        ask.positive(),
        target.positive(),
        target.quotient(size).finite(),
        target.quotient(size).value() >= crate::double::error::least_normal(),
        crate::actors::pricing::buy_economic_diff(size, ask, target).finite(),
    ensures
        nearly(
            crate::actors::pricing::buy_economic_diff(size, ask, target).value() * target.value(),
            10000 as real * (target.value() - size.value() * ask.value()),
            10000 as real * (target.value() + size.value() * ask.value()),
        ),
{
    lemma_positive(size);
    lemma_positive(ask);
    lemma_positive(target);
    crate::double::error::lemma_small();
    let p: Double = target.quotient(size);
    crate::double::error::lemma_quotient_error(target, size);
    lemma_spread(p, ask);
    lemma_buy_economic_errors(
        target.value(),
        size.value(),
        ask.value(),
        p.value(),
        crate::actors::pricing::buy_economic_diff(size, ask, target).value(),
    );
}

} // verus!
