//! The price on chain at which buying there just pays.
use vstd::prelude::*;

use crate::double::Double;

verus! {

/// What the hedge brings less the fee.
proof fn lemma_proceeds(size: Double, worst: Double, fee: Double)
    requires
        size.positive(),
        worst.positive(),
        crate::actors::pricing::proper_rate(fee),
        size.value() * worst.value() >= crate::double::error::least_normal(),
        size.product(worst).product(crate::actors::pricing::lowered_by(fee)).finite(),
    ensures
        ({
            let x: real = size.value() * worst.value();
            crate::double::error::within(
                size.product(worst).product(crate::actors::pricing::lowered_by(fee)).value(),
                x * (1 as real - crate::actors::pricing::values::fraction(fee)),
                32 as real * (crate::double::error::roundoff() * x),
            )
        }),
{
    let cost: Double = size.product(worst);
    let lower: Double = crate::actors::pricing::lowered_by(fee);
    let proceeds: Double = cost.product(lower);
    crate::actors::pricing::values::lemma_positive(size);
    crate::actors::pricing::values::lemma_positive(worst);
    crate::actors::pricing::values::lemma_finite_parts(cost, lower);
    crate::actors::pricing::values::lemma_plain_product(size, worst);
    crate::actors::pricing::values::lemma_lowered_value(fee);
    crate::double::error::lemma_product_error(cost, lower);
    let x: real = size.value() * worst.value();
    crate::actors::pricing::estimates::lemma_proceeds_errors(
        x,
        cost.value(),
        lower.value(),
        1 as real - crate::actors::pricing::values::fraction(fee),
        proceeds.value(),
    );
}

/// The most that may be paid on chain for a token.
pub open spec fn most_price(
    size: Double,
    worst: Double,
    fee: Double,
    buffer: Double,
    gas: Double,
) -> Double {
    size.product(worst).product(crate::actors::pricing::lowered_by(fee)).difference(gas).quotient(
        size.product(crate::actors::pricing::raised_by(buffer)),
    )
}

/// At the most that may be paid, the size with the buffer on top costs what the hedge brings less
/// fee and gas.
proof fn lemma_most_price(size: Double, worst: Double, fee: Double, buffer: Double, gas: Double)
    requires
        size.positive(),
        worst.positive(),
        crate::actors::pricing::proper_rate(fee),
        crate::actors::pricing::proper_rate(buffer),
        gas.finite(),
        Double::nought().at_most(gas),
        size.value() >= crate::double::error::least_normal(),
        worst.value() >= crate::double::error::least_normal(),
        size.value() * worst.value() >= crate::double::error::least_normal(),
        size.product(crate::actors::pricing::raised_by(buffer)).finite(),
        most_price(size, worst, fee, buffer, gas).finite(),
    ensures
        ({
            let x: real = size.value() * worst.value();
            let most: real = most_price(size, worst, fee, buffer, gas).value();
            let volume: real = size.value() * (1 as real + crate::actors::pricing::values::fraction(buffer));
            &&& crate::double::error::within(
                most * volume,
                x * (1 as real - crate::actors::pricing::values::fraction(fee)) - gas.value(),
                200 as real * (crate::double::error::roundoff() * (x + gas.value())),
            )
            &&& crate::double::error::size_of(most * volume) <= 4 as real * (x + gas.value())
            &&& volume > 0 as real
            &&& x + gas.value() >= 0 as real
        }),
{
    let proceeds: Double = size.product(worst).product(crate::actors::pricing::lowered_by(fee));
    let rest: Double = proceeds.difference(gas);
    let raise: Double = crate::actors::pricing::raised_by(buffer);
    let spending: Double = size.product(raise);
    let most: Double = rest.quotient(spending);
    crate::double::error::lemma_small();
    crate::actors::pricing::values::lemma_positive(size);
    crate::actors::pricing::values::lemma_positive(worst);
    crate::actors::pricing::values::lemma_finite_parts(rest, spending);
    crate::actors::pricing::values::lemma_finite_parts(proceeds, gas);
    lemma_proceeds(size, worst, fee);
    assert(gas.value() >= 0 as real) by {
        crate::actors::pricing::values::lemma_constants();
        crate::double::error::lemma_order(Double::nought(), gas);
    }
    assert(buffer.units() <= 20000 * crate::double::one_units()) by {
        crate::actors::pricing::laws::lemma_basis_points();
    }
    crate::actors::pricing::values::lemma_raised_value(buffer);
    crate::actors::pricing::values::lemma_lowered_value(fee);
    crate::actors::pricing::values::lemma_lowered_value(buffer);
    crate::actors::pricing::values::lemma_scaled(size, raise, 1 as real + crate::actors::pricing::values::fraction(buffer));
    crate::double::error::lemma_difference_error(proceeds, gas);
    crate::actors::pricing::values::lemma_divisor(rest, spending);
    crate::double::error::lemma_quotient_error(rest, spending);
    let s: real = size.value();
    let more: real = 1 as real + crate::actors::pricing::values::fraction(buffer);
    let x: real = s * worst.value();
    crate::actors::pricing::estimates::lemma_most_price_errors(
        x,
        s,
        worst.value(),
        gas.value(),
        1 as real - crate::actors::pricing::values::fraction(fee),
        more,
        proceeds.value(),
        rest.value(),
        spending.value(),
        most.value(),
    );
    crate::double::error::lemma_mul_order(1 as real, more, s);
}

/// The threshold of a purchase on chain is the difference at which the trade just breaks even: at
/// that price the configured size, bought on chain with the buffer on top, costs what selling it
/// at the worst price less the fee brings once the gas for the whole trade is paid.
pub proof fn law_sell_threshold_is_the_break_even_point(
    size: Double,
    bid: Double,
    worst: Double,
    fee: Double,
    buffer: Double,
    gas: Double,
)
    requires
        bid.positive(),
        crate::actors::pricing::terms_fault(
            size,
            crate::actors::pricing::Amount::HedgeSize,
            worst,
            fee,
            buffer,
            gas,
        ) is None,
        size.value() >= crate::double::error::least_normal(),
        worst.value() >= crate::double::error::least_normal(),
        size.value() * worst.value() >= crate::double::error::least_normal(),
        size.product(crate::actors::pricing::raised_by(buffer)).finite(),
        crate::actors::pricing::sell_economic_diff(size, bid, worst, fee, buffer, gas).finite(),
    ensures
        ({
            let volume: real = size.value() * (1 as real + buffer.value() / 10000 as real);
            let turnover: real = size.value() * worst.value();
            let net: real = turnover * (1 as real - fee.value() / 10000 as real) - gas.value();
            crate::actors::pricing::values::nearly(
                crate::actors::pricing::sell_economic_diff(
                    size,
                    bid,
                    worst,
                    fee,
                    buffer,
                    gas,
                ).value() * (bid.value() * volume),
                10000 as real * (bid.value() * volume - net),
                10000 as real * (bid.value() * volume + (turnover + gas.value())),
            )
        }),
{
    let e: Double = crate::actors::pricing::sell_economic_diff(size, bid, worst, fee, buffer, gas);
    let most: Double = most_price(size, worst, fee, buffer, gas);
    crate::actors::pricing::values::lemma_positive(bid);
    crate::actors::pricing::values::lemma_finite_parts(
        bid.difference(most).quotient(bid),
        Double::basis_points(),
    );
    crate::actors::pricing::values::lemma_finite_parts(bid.difference(most), bid);
    crate::actors::pricing::values::lemma_finite_parts(bid, most);
    lemma_most_price(size, worst, fee, buffer, gas);
    assert(e == crate::actors::pricing::values::spread(bid, most));
    crate::actors::pricing::values::lemma_spread(bid, most);
    let x: real = size.value() * worst.value();
    let volume: real = size.value() * (1 as real + crate::actors::pricing::values::fraction(buffer));
    crate::actors::pricing::estimates::lemma_sell_economic_errors(
        bid.value(),
        most.value(),
        volume,
        x * (1 as real - crate::actors::pricing::values::fraction(fee)) - gas.value(),
        x + gas.value(),
        e.value(),
    );
}

} // verus!
