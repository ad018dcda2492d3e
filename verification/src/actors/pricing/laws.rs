//! Laws of the economic rules.
use vstd::arithmetic::mul::*;
use vstd::arithmetic::power2::*;
use vstd::prelude::*;

use crate::actors::pricing::{
    ArbDirection, PricingError, Quotes, Terms, TradePlan,
};
use crate::double::{Double, INFINITY_BITS};

verus! {

/// The value of ten thousand.
pub proof fn lemma_basis_points()
    ensures
        Double::basis_points().abs_units() == 10000 * crate::double::one_units(),
        Double::basis_points().units() == 10000 * crate::double::one_units(),
        Double::basis_points().positive(),
{
    crate::double::rounding::lemma_powers();
    lemma_pow2_adds(39, 1035);
    lemma2_to64();
    lemma2_to64_rest();
    let m: nat = 0x40c3_8800_0000_0000;
    assert(m / 0x0010_0000_0000_0000nat == 1036);
    assert(m % 0x0010_0000_0000_0000nat == 0x3_8800_0000_0000);
    assert(0x0013_8800_0000_0000nat == 10000 * pow2(39));
    assert((10000 * pow2(39)) * pow2(1035) == 10000 * (pow2(39) * pow2(1035)))
        by (nonlinear_arith);
}

/// The value of two.
proof fn lemma_two()
    ensures
        crate::double::magnitude_units(0x4000_0000_0000_0000) == 2 * crate::double::one_units(),
{
    crate::double::rounding::lemma_powers();
    lemma_pow2_adds(52, 1023);
    lemma_pow2_adds(1, 1074);
    assert(0x4000_0000_0000_0000nat / 0x0010_0000_0000_0000nat == 1024);
    assert(0x4000_0000_0000_0000nat % 0x0010_0000_0000_0000nat == 0);
}

/// A rate of at most twice ten thousand is at most two when divided by ten thousand.
pub proof fn lemma_rate_part(rate: Double)
    requires
        rate.finite(),
        Double::nought().at_most(rate),
        rate.units() <= 20000 * crate::double::one_units(),
    ensures
        ({
            let part: Double = rate.quotient(Double::basis_points());
            &&& part.finite()
            &&& crate::double::laws::non_negative(part)
            &&& part.units() <= 2 * crate::double::one_units()
            &&& rate.units() <= 10000 * crate::double::one_units() ==> part.at_most(Double::one())
        }),
{
    crate::double::laws::lemma_one();
    lemma_basis_points();
    lemma_two();
    lemma_nought();
    crate::double::laws::law_quotient_non_negative(rate, Double::basis_points());
    let one: nat = crate::double::one_units();
    let u: nat = rate.abs_units();
    if rate.negative() {
        assert(rate.units() == -(u as int));
    }
    let den: nat = 10000 * one;
    let bits: nat = crate::double::nearest_bits(u * one, den);
    assert((u * one) * 1 <= (2 * one) * den) by (nonlinear_arith)
        requires
            u <= 20000 * one,
            den == 10000 * one,
    ;
    crate::double::rounding::lemma_nearest_monotone(u * one, den, 2 * one, 1);
    crate::double::rounding::lemma_nearest_exact(0x4000_0000_0000_0000);
    crate::double::rounding::lemma_order_of_bits(bits, 0x4000_0000_0000_0000);
    if u <= 10000 * one {
        assert((u * one) * 1 <= one * den) by (nonlinear_arith)
            requires
                u <= 10000 * one,
                den == 10000 * one,
        ;
        crate::double::rounding::lemma_nearest_monotone(u * one, den, one, 1);
        crate::double::rounding::lemma_nearest_exact(0x3ff0_0000_0000_0000);
        crate::double::rounding::lemma_order_of_bits(bits, 0x3ff0_0000_0000_0000);
    }
}

pub proof fn lemma_nought()
    ensures
        Double::nought().units() == 0,
{
    crate::double::rounding::lemma_powers();
}

/// One and a rate more is a number of at least one.
pub proof fn lemma_raised(rate: Double)
    requires
        rate.finite(),
        Double::nought().at_most(rate),
        rate.units() <= 20000 * crate::double::one_units(),
    ensures
        crate::actors::pricing::raised_by(rate).finite(),
        Double::one().at_most(crate::actors::pricing::raised_by(rate)),
{
    lemma_rate_part(rate);
    crate::double::laws::lemma_one();
    let part: Double = rate.quotient(Double::basis_points());
    crate::double::laws::law_sum_grows(Double::one(), part);
    let one: nat = crate::double::one_units();
    let total: int = Double::one().units() + part.units();
    crate::double::rounding::lemma_nearest_monotone(total as nat, 1, 4 * one, 1);
    lemma_four();
    crate::double::rounding::lemma_nearest_exact(0x4010_0000_0000_0000);
}

/// The value of four.
proof fn lemma_four()
    ensures
        crate::double::magnitude_units(0x4010_0000_0000_0000) == 4 * crate::double::one_units(),
{
    crate::double::rounding::lemma_powers();
    lemma_pow2_adds(52, 1024);
    lemma_pow2_adds(2, 1074);
    lemma2_to64();
    lemma2_to64_rest();
    assert(0x4010_0000_0000_0000nat / 0x0010_0000_0000_0000nat == 1025);
    assert(0x4010_0000_0000_0000nat % 0x0010_0000_0000_0000nat == 0);
}

/// One and a rate less lies between zero and one.
pub proof fn lemma_lowered(rate: Double)
    requires
        crate::actors::pricing::proper_rate(rate),
    ensures
        crate::double::laws::non_negative(crate::actors::pricing::lowered_by(rate)),
        crate::actors::pricing::lowered_by(rate).at_most(Double::one()),
        !crate::actors::pricing::lowered_by(rate).negative(),
{
    lemma_basis_points();
    lemma_rate_part(rate);
    crate::double::laws::lemma_one();
    let one: nat = crate::double::one_units();
    let part: Double = rate.quotient(Double::basis_points());
    let less: Double = part.opposite();
    assert(less.units() == -part.units());
    let rest: int = one - part.units();
    assert(0 <= rest <= one);
    if rest > 0 {
        crate::double::rounding::lemma_nearest_monotone(rest as nat, 1, one, 1);
        crate::double::rounding::lemma_nearest_exact(0x3ff0_0000_0000_0000);
        let bits: nat = crate::double::nearest_bits(rest as nat, 1);
        crate::double::rounding::lemma_order_of_bits(bits, 0x3ff0_0000_0000_0000);
        crate::double::rounding::lemma_order_of_bits(0, bits);
    }
    lemma_nought();
}

/// Buying the hedge is priced at the ask or worse.
pub proof fn law_worst_buy_price_is_not_below_ask(
    bid: Double,
    ask: Double,
    slippage: Double,
    price: Double,
)
    requires
        crate::actors::pricing::worst_price_result(ArbDirection::BuyDiff, bid, ask, slippage)
            == Ok::<Double, PricingError>(price),
    ensures
        ask.at_most(price),
{
    lemma_basis_points();
    lemma_raised(slippage);
    lemma_nought();
    crate::double::rounding::lemma_order_of_bits(0, ask.magnitude());
    crate::double::laws::law_product_grows(ask, crate::actors::pricing::raised_by(slippage));
}

/// Selling the hedge is priced at the bid or worse, and never below zero.
pub proof fn law_worst_sell_price_is_not_above_bid(
    bid: Double,
    ask: Double,
    slippage: Double,
    price: Double,
)
    requires
        crate::actors::pricing::worst_price_result(ArbDirection::SellDiff, bid, ask, slippage)
            == Ok::<Double, PricingError>(price),
    ensures
        price.at_most(bid),
        crate::double::laws::non_negative(price),
{
    lemma_lowered(slippage);
    lemma_nought();
    crate::double::rounding::lemma_order_of_bits(0, bid.magnitude());
    crate::double::laws::law_product_shrinks(bid, crate::actors::pricing::lowered_by(slippage));
}

/// What selling on chain must bring covers the hedge at its worst price, and covers the gas.
pub proof fn law_buy_floor_covers_its_costs(
    hedge_size: Double,
    worst: Double,
    fee: Double,
    buffer: Double,
    gas: Double,
    floor: Double,
)
    requires
        crate::actors::pricing::buy_floor_result(hedge_size, worst, fee, buffer, gas) == Ok::<
            Double,
            PricingError,
        >(floor),
    ensures
        hedge_size.product(worst).at_most(floor),
        gas.at_most(floor),
{
    lemma_nought();
    lemma_basis_points();
    crate::double::laws::lemma_one();
    let one: nat = crate::double::one_units();
    let both: Double = fee.sum(buffer);
    crate::double::laws::law_sum_grows(fee, buffer);
    lemma_twenty_thousand(fee, buffer);
    lemma_raised(both);
    let factor: Double = crate::actors::pricing::raised_by(both);
    let cost: Double = hedge_size.product(worst);
    crate::double::rounding::lemma_order_of_bits(0, hedge_size.magnitude());
    crate::double::rounding::lemma_order_of_bits(0, worst.magnitude());
    crate::double::rounding::lemma_order_of_bits(0, cost.magnitude());
    let raised: Double = cost.product(factor);
    if cost.infinite() {
        crate::double::rounding::lemma_order_of_bits(0x3ff0_0000_0000_0000, INFINITY_BITS as nat);
        if factor.negative() {
            assert(factor.units() <= 0);
        }
        assert(!factor.zero());
        assert(raised == cost);
    } else {
        crate::double::laws::law_product_grows(cost, factor);
    }
    crate::double::laws::law_sum_grows(raised, gas);
}

/// What spending on chain must bring is at least what the amount spent is worth at the worst price
/// of the hedge, and at least what the gas is worth there.
pub proof fn law_sell_floor_covers_what_was_spent(
    evm_amount_in: Double,
    worst: Double,
    fee: Double,
    buffer: Double,
    gas: Double,
    floor: Double,
)
    requires
        crate::actors::pricing::sell_floor_result(evm_amount_in, worst, fee, buffer, gas) == Ok::<
            Double,
            PricingError,
        >(floor),
    ensures
        evm_amount_in.quotient(worst).at_most(floor),
        gas.quotient(worst).at_most(floor),
{
    lemma_nought();
    lemma_basis_points();
    lemma_raised(buffer);
    lemma_lowered(fee);
    crate::double::rounding::lemma_order_of_bits(0, worst.magnitude());
    crate::double::rounding::lemma_order_of_bits(0, evm_amount_in.magnitude());
    crate::double::rounding::lemma_units_monotone(0, evm_amount_in.magnitude());
    let raised: Double = evm_amount_in.product(crate::actors::pricing::raised_by(buffer));
    let required: Double = raised.sum(gas);
    let net: Double = worst.product(crate::actors::pricing::lowered_by(fee));
    crate::double::laws::law_product_grows(
        evm_amount_in,
        crate::actors::pricing::raised_by(buffer),
    );
    crate::double::laws::law_sum_grows(raised, gas);
    crate::double::laws::law_product_shrinks(worst, crate::actors::pricing::lowered_by(fee));
    crate::double::laws::law_quotient_grows(evm_amount_in, worst, required, net);
    crate::double::laws::law_quotient_grows(gas, worst, required, net);
}

/// Two proper rates add up to at most twenty thousand.
pub proof fn lemma_twenty_thousand(a: Double, b: Double)
    requires
        crate::actors::pricing::proper_rate(a),
        crate::actors::pricing::proper_rate(b),
    ensures
        a.sum(b).finite(),
        a.sum(b).units() <= 20000 * crate::double::one_units(),
{
    lemma_nought();
    lemma_basis_points();
    crate::double::laws::lemma_one();
    crate::double::rounding::lemma_powers();
    let one: nat = crate::double::one_units();
    // 20000 has the bit pattern of 10000 with an exponent that is one larger.
    let m: nat = 0x40d3_8800_0000_0000;
    assert(m / 0x0010_0000_0000_0000nat == 1037);
    assert(m % 0x0010_0000_0000_0000nat == 0x3_8800_0000_0000);
    lemma_pow2_adds(40, 1034);
    lemma_pow2_adds(38, 1036);
    lemma2_to64();
    lemma2_to64_rest();
    assert(0x0013_8800_0000_0000nat == 20000 * pow2(38));
    assert((20000 * pow2(38)) * pow2(1036) == 20000 * (pow2(38) * pow2(1036)))
        by (nonlinear_arith);
    assert(crate::double::magnitude_units(m) == 20000 * one);
    let total: int = a.units() + b.units();
    if total > 0 {
        crate::double::rounding::lemma_nearest_monotone(total as nat, 1, 20000 * one, 1);
        crate::double::rounding::lemma_nearest_exact(m);
        crate::double::rounding::lemma_order_of_bits(crate::double::nearest_bits(total as nat, 1), m);
    }
}

/// A plan's threshold is never below the configured one, nor below the economic one.
pub proof fn law_threshold_is_not_below_either_floor(configured: Double, economic: Double)
    requires
        !configured.is_nan(),
        !economic.is_nan(),
    ensures
        configured.at_most(configured.larger(economic)),
        economic.at_most(configured.larger(economic)),
{
}

/// A chance that triggers a trade lies at or above the configured and the economic threshold, is
/// allowed in its direction, and at the quoted price brings at least what it must bring.
pub proof fn law_triggered_plans_pay(
    t: Terms,
    q: Quotes,
    buy: TradePlan,
    sell: TradePlan,
)
    requires
        crate::actors::pricing::opportunities(t, q) == Ok::<
            (TradePlan, TradePlan),
            crate::actors::pricing::EvaluationError,
        >((buy, sell)),
    ensures
        buy.triggered() ==> {
            &&& buy.target_amount.at_most(buy.amount_in.product(q.evm_sell))
            &&& buy.amount_in == t.size
            &&& t.ask_diff.is_nan() || t.ask_diff.at_most(q.buy_diff())
            &&& ({
                let economic: Double = crate::actors::pricing::buy_economic_diff(
                    t.size,
                    q.ask,
                    buy.target_amount,
                );
                economic.is_nan() || economic.at_most(q.buy_diff())
            })
        },
        sell.triggered() ==> {
            &&& t.enable_sell
            &&& sell.target_amount.at_most(t.size)
            &&& sell.amount_in == t.size.product(q.evm_buy)
            &&& t.bid_diff.is_nan() || t.bid_diff.at_most(q.sell_diff())
            &&& ({
                let economic: Double = crate::actors::pricing::sell_economic_diff(
                    t.size,
                    q.bid,
                    crate::actors::pricing::hedge_order(
                        ArbDirection::SellDiff,
                        q.bid,
                        q.ask,
                        t.limit_slippage,
                        t.size,
                        t.size_decimals,
                    )->Ok_0.price,
                    t.fee,
                    t.buffer,
                    t.gas,
                );
                economic.is_nan() || economic.at_most(q.sell_diff())
            })
        },
{
    reveal(crate::actors::pricing::opportunities);
}

/// The target of the sell-on-chain plan covers buying the configured size back at the worst price
/// that its order may be filled at, and covers the gas.
pub proof fn law_buy_plan_covers_the_hedge(
    t: Terms,
    q: Quotes,
    buy: TradePlan,
    sell: TradePlan,
)
    requires
        crate::actors::pricing::opportunities(t, q) == Ok::<
            (TradePlan, TradePlan),
            crate::actors::pricing::EvaluationError,
        >((buy, sell)),
    ensures
        ({
            let order: Result<
                crate::liquid::client::NormalizedSpotOrder,
                PricingError,
            > = crate::actors::pricing::hedge_order(
                ArbDirection::BuyDiff,
                q.bid,
                q.ask,
                t.limit_slippage,
                t.size,
                t.size_decimals,
            );
            &&& order is Ok
            &&& t.size.product(order->Ok_0.price).at_most(buy.target_amount)
            &&& t.gas.at_most(buy.target_amount)
        }),
{
    reveal(crate::actors::pricing::opportunities);
    let price: Double = crate::actors::pricing::hedge_order(
        ArbDirection::BuyDiff,
        q.bid,
        q.ask,
        t.limit_slippage,
        t.size,
        t.size_decimals,
    )->Ok_0.price;
    law_buy_floor_covers_its_costs(t.size, price, t.fee, t.buffer, t.gas, buy.target_amount);
}

/// The target of the buy-on-chain plan, sold at the worst price that its order may be filled at,
/// is worth what is spent on chain.
pub proof fn law_sell_plan_covers_what_is_spent(
    t: Terms,
    q: Quotes,
    buy: TradePlan,
    sell: TradePlan,
)
    requires
        crate::actors::pricing::opportunities(t, q) == Ok::<
            (TradePlan, TradePlan),
            crate::actors::pricing::EvaluationError,
        >((buy, sell)),
    ensures
        ({
            let order: Result<
                crate::liquid::client::NormalizedSpotOrder,
                PricingError,
            > = crate::actors::pricing::hedge_order(
                ArbDirection::SellDiff,
                q.bid,
                q.ask,
                t.limit_slippage,
                t.size,
                t.size_decimals,
            );
            &&& order is Ok
            &&& sell.amount_in.quotient(order->Ok_0.price).at_most(sell.target_amount)
            &&& t.gas.quotient(order->Ok_0.price).at_most(sell.target_amount)
        }),
{
    reveal(crate::actors::pricing::opportunities);
    let price: Double = crate::actors::pricing::hedge_order(
        ArbDirection::SellDiff,
        q.bid,
        q.ask,
        t.limit_slippage,
        t.size,
        t.size_decimals,
    )->Ok_0.price;
    law_sell_floor_covers_what_was_spent(
        sell.amount_in,
        price,
        t.fee,
        t.buffer,
        t.gas,
        sell.target_amount,
    );
}

/// An order that was filled in full counts as filled.
pub proof fn law_full_fill_is_complete(expected: Double, actual: Double)
    requires
        expected.positive(),
        actual.finite(),
        expected.at_most(actual),
    ensures
        crate::actors::pricing::complete_fill(expected, actual),
{
    reveal(crate::actors::pricing::complete_fill);
    lemma_nought();
    crate::double::rounding::lemma_order_of_bits(0, expected.magnitude());
    crate::double::laws::lemma_one();
    let scaled: Double = expected.absolute().product(Double::billionth());
    lemma_small_numbers();
    crate::double::rounding::lemma_order_of_bits(0, scaled.magnitude());
    crate::double::laws::law_sum_grows(scaled, Double::trillionth());
    crate::double::laws::law_sum_grows(actual, scaled.sum(Double::trillionth()));
}

proof fn lemma_small_numbers()
    ensures
        crate::double::laws::non_negative(Double::billionth()),
        crate::double::laws::non_negative(Double::trillionth()),
        Double::billionth().positive(),
        Double::trillionth().positive(),
{
    lemma_nought();
    crate::double::rounding::lemma_order_of_bits(0, Double::billionth().magnitude());
    crate::double::rounding::lemma_order_of_bits(0, Double::trillionth().magnitude());
}

/// A fill that counts as complete falls short of the order by no more than the tolerance.
pub proof fn law_complete_fill_falls_short_by_the_tolerance_at_most(
    expected: Double,
    actual: Double,
)
    requires
        crate::actors::pricing::complete_fill(expected, actual),
    ensures
        expected.at_most(
            actual.sum(
                expected.absolute().product(Double::billionth()).sum(Double::trillionth()),
            ),
        ),
        expected.positive(),
        Double::nought().at_most(actual),
{
    reveal(crate::actors::pricing::complete_fill);
}

/// Nothing from the future is fresh.
pub proof fn law_future_is_not_fresh(timestamp: u64, now: u64, max_age_ms: u64)
    requires
        now < timestamp,
    ensures
        !crate::actors::pricing::fresh(timestamp, now, max_age_ms),
{
}

/// Data that were fresh at a later time were fresh at any earlier time since they arrived.
pub proof fn law_freshness_only_fades(timestamp: u64, earlier: u64, later: u64, max_age_ms: u64)
    requires
        crate::actors::pricing::fresh(timestamp, later, max_age_ms),
        timestamp <= earlier <= later,
    ensures
        crate::actors::pricing::fresh(timestamp, earlier, max_age_ms),
{
}

/// It does not matter which market's time is which.
pub proof fn law_market_freshness_is_symmetric(
    a: u64,
    b: u64,
    now: u64,
    max_age_ms: u64,
    max_skew_ms: u64,
)
    ensures
        crate::actors::pricing::both_fresh(a, b, now, max_age_ms, max_skew_ms)
            == crate::actors::pricing::both_fresh(b, a, now, max_age_ms, max_skew_ms),
{
}

/// What was bought on chain is hedged by the amount that actually came out, never by a guess.
pub proof fn law_sell_hedge_is_the_actual_amount(
    configured: Double,
    amount_out: Option<Double>,
    size: Double,
)
    requires
        crate::actors::pricing::hedge_size(ArbDirection::SellDiff, configured, amount_out) == Ok::<
            Double,
            PricingError,
        >(size),
    ensures
        amount_out == Some(size),
        size.positive(),
{
}

} // verus!
