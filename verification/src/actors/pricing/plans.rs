//! What the two chances that the markets offer are made of.
use vstd::prelude::*;

use crate::actors::pricing::{ArbDirection, PricingError, Quotes, Terms, TradePlan};
use crate::double::Double;
use crate::liquid::client::NormalizedSpotOrder;

verus! {

/// Whether a threshold is the larger of the configured one and that at which the trade pays.
pub open spec fn larger_of(threshold: Double, configured: Double, economic: Double) -> bool {
    &&& threshold == configured || threshold == economic
    &&& !configured.is_nan() ==> configured.at_most(threshold)
    &&& !economic.is_nan() ==> economic.at_most(threshold)
}

/// The chance of selling on chain sells the configured size of token1 at the best selling
/// exchange. Its target is what pays for buying the size back, its difference that of the selling
/// price on chain over the ask, its threshold the larger of the one configured for it and the one
/// at which the target is met. It is always allowed, and safe where the price on chain brings the
/// target.
pub proof fn law_buy_plan(t: Terms, q: Quotes, buy: TradePlan, sell: TradePlan)
    requires
        crate::actors::pricing::opportunities(t, q) == Ok::<
            (TradePlan, TradePlan),
            crate::actors::pricing::EvaluationError,
        >((buy, sell)),
    ensures
        ({
            let order: Result<NormalizedSpotOrder, PricingError> =
                crate::actors::pricing::hedge_order(
                ArbDirection::BuyDiff,
                q.bid,
                q.ask,
                t.limit_slippage,
                t.size,
                t.size_decimals,
            );
            &&& order is Ok
            &&& crate::actors::pricing::buy_floor_result(
                t.size,
                order->Ok_0.price,
                t.fee,
                t.buffer,
                t.gas,
            ) == Ok::<Double, PricingError>(buy.target_amount)
            &&& buy.direction == ArbDirection::BuyDiff
            &&& buy.amount_in == t.size
            &&& buy.dex == q.sell_dex
            &&& buy.enabled
            &&& buy.economically_safe <==> buy.target_amount.at_most(t.size.product(q.evm_sell))
            &&& buy.diff_bps == crate::actors::pricing::values::spread(q.evm_sell, q.ask)
            &&& larger_of(
                buy.minimum_diff_bps,
                t.ask_diff,
                crate::actors::pricing::values::spread(buy.target_amount.quotient(t.size), q.ask),
            )
        }),
{
    reveal(crate::actors::pricing::opportunities);
}

/// The chance of buying on chain spends what the configured size of token1 costs at the best
/// buying exchange. Its target is what pays for that, its difference that of the bid over the
/// buying price on chain, its threshold the larger of the one configured for it and the one at
/// which it breaks even. It is allowed where the pair says so, and safe where the configured size
/// is the target or more.
pub proof fn law_sell_plan(t: Terms, q: Quotes, buy: TradePlan, sell: TradePlan)
    requires
        crate::actors::pricing::opportunities(t, q) == Ok::<
            (TradePlan, TradePlan),
            crate::actors::pricing::EvaluationError,
        >((buy, sell)),
    ensures
        ({
            let order: Result<NormalizedSpotOrder, PricingError> =
                crate::actors::pricing::hedge_order(
                ArbDirection::SellDiff,
                q.bid,
                q.ask,
                t.limit_slippage,
                t.size,
                t.size_decimals,
            );
            &&& order is Ok
            &&& crate::actors::pricing::sell_floor_result(
                t.size.product(q.evm_buy),
                order->Ok_0.price,
                t.fee,
                t.buffer,
                t.gas,
            ) == Ok::<Double, PricingError>(sell.target_amount)
            &&& sell.direction == ArbDirection::SellDiff
            &&& sell.amount_in == t.size.product(q.evm_buy)
            &&& sell.dex == q.buy_dex
            &&& sell.enabled == t.enable_sell
            &&& sell.economically_safe <==> sell.target_amount.at_most(t.size)
            &&& sell.diff_bps == crate::actors::pricing::values::spread(q.bid, q.evm_buy)
            &&& larger_of(
                sell.minimum_diff_bps,
                t.bid_diff,
                crate::actors::pricing::sell_economic_diff(
                    t.size,
                    q.bid,
                    order->Ok_0.price,
                    t.fee,
                    t.buffer,
                    t.gas,
                ),
            )
        }),
{
    reveal(crate::actors::pricing::opportunities);
}

/// The prices are judged wherever they are positive, the book does not cross, both hedges could be
/// ordered at a positive price, and the terms are in order.
pub proof fn law_sound_prices_are_judged(
    t: Terms,
    q: Quotes,
    buy_order: NormalizedSpotOrder,
    sell_order: NormalizedSpotOrder,
)
    requires
        q.evm_buy.positive(),
        q.evm_sell.positive(),
        q.bid.positive(),
        q.ask.positive(),
        q.bid.at_most(q.ask),
        crate::actors::pricing::hedge_order(
            ArbDirection::BuyDiff,
            q.bid,
            q.ask,
            t.limit_slippage,
            t.size,
            t.size_decimals,
        ) == Ok::<NormalizedSpotOrder, PricingError>(buy_order),
        crate::actors::pricing::hedge_order(
            ArbDirection::SellDiff,
            q.bid,
            q.ask,
            t.limit_slippage,
            t.size,
            t.size_decimals,
        ) == Ok::<NormalizedSpotOrder, PricingError>(sell_order),
        buy_order.price.positive(),
        sell_order.price.positive(),
        t.size.positive(),
        t.size.product(q.evm_buy).positive(),
        crate::config::readers::rate_fault(Seq::empty(), t.fee, false) is None,
        crate::config::readers::rate_fault(Seq::empty(), t.buffer, false) is None,
        t.gas.finite(),
        t.gas.value() >= 0 as real,
    ensures
        crate::actors::pricing::opportunities(t, q) is Ok,
{
    reveal(crate::actors::pricing::opportunities);
    crate::actors::pricing::values::lemma_constants();
    crate::double::error::lemma_order(Double::nought(), t.gas);
}

/// A chance is taken exactly where it is allowed, safe, and its difference reaches its threshold.
pub proof fn law_chances_trigger(plan: TradePlan)
    requires
        !plan.minimum_diff_bps.is_nan(),
        !plan.diff_bps.is_nan(),
    ensures
        plan.triggered() <==> {
            &&& plan.enabled
            &&& plan.economically_safe
            &&& plan.minimum_diff_bps.value() <= plan.diff_bps.value()
        },
{
    crate::double::error::lemma_order(plan.minimum_diff_bps, plan.diff_bps);
}

/// The order of a hedge is for the worst price and the size, rounded as the exchange takes them:
/// bought where token1 was sold on chain, sold where it was bought.
pub proof fn law_hedges_are_ordered_at_the_worst_price(
    direction: ArbDirection,
    bid: Double,
    ask: Double,
    slippage: Double,
    size: Double,
    size_decimals: u8,
    price: Double,
)
    requires
        crate::actors::pricing::worst_price_result(direction, bid, ask, slippage) == Ok::<
            Double,
            PricingError,
        >(price),
    ensures
        ({
            let rounded: Result<NormalizedSpotOrder, crate::liquid::client::OrderError> =
                crate::liquid::client::normalized_order(
                direction == ArbDirection::BuyDiff,
                price,
                size,
                size_decimals,
            );
            let order: Result<NormalizedSpotOrder, PricingError> =
                crate::actors::pricing::hedge_order(
                direction,
                bid,
                ask,
                slippage,
                size,
                size_decimals,
            );
            &&& rounded is Ok <==> order is Ok
            &&& rounded is Ok ==> order->Ok_0 == rounded->Ok_0
        }),
{
    reveal(crate::actors::pricing::hedge_order);
}

/// The terms of a trade are in order exactly where the amount and the worst price are positive,
/// fee and buffer are rates from 0 to below 10000, and the gas is a cost of zero or more.
pub proof fn law_terms_are_in_order(
    amount: Double,
    name: crate::actors::pricing::Amount,
    worst: Double,
    fee: Double,
    buffer: Double,
    gas: Double,
)
    ensures
        crate::actors::pricing::terms_fault(amount, name, worst, fee, buffer, gas) is None <==> {
            &&& amount.positive()
            &&& worst.positive()
            &&& fee.finite() && 0 as real <= fee.value() && fee.value() < 10000 as real
            &&& buffer.finite() && 0 as real <= buffer.value() && buffer.value() < 10000 as real
            &&& gas.finite() && 0 as real <= gas.value()
        },
{
    lemma_rate(fee);
    lemma_rate(buffer);
    crate::actors::pricing::values::lemma_constants();
    crate::double::error::lemma_order(Double::nought(), gas);
}

proof fn lemma_rate(rate: Double)
    ensures
        crate::actors::pricing::proper_rate(rate) <==> rate.finite() && 0 as real <= rate.value()
            && rate.value() < 10000 as real,
{
    crate::actors::pricing::values::lemma_constants();
    crate::double::error::lemma_order(Double::nought(), rate);
    crate::double::error::lemma_order(rate, Double::basis_points());
}

/// A worst price is given exactly where the book has positive prices that do not cross and the
/// slippage is a rate from 0 to below 10000.
pub proof fn law_worst_prices_need_a_sound_book(
    direction: ArbDirection,
    bid: Double,
    ask: Double,
    slippage: Double,
)
    ensures
        crate::actors::pricing::worst_price_result(direction, bid, ask, slippage) is Ok <==> {
            &&& bid.positive()
            &&& ask.positive()
            &&& bid.value() <= ask.value()
            &&& slippage.finite()
            &&& 0 as real <= slippage.value()
            &&& slippage.value() < 10000 as real
        },
{
    lemma_rate(slippage);
    crate::double::error::lemma_order(bid, ask);
}

/// What was judged had positive prices, a book that does not cross and terms in order.
pub proof fn law_only_sound_prices_are_judged(t: Terms, q: Quotes)
    requires
        crate::actors::pricing::opportunities(t, q) is Ok,
    ensures
        q.evm_buy.positive(),
        q.evm_sell.positive(),
        q.bid.positive(),
        q.ask.positive(),
        q.bid.value() <= q.ask.value(),
        t.size.positive(),
        t.fee.finite() && 0 as real <= t.fee.value() && t.fee.value() < 10000 as real,
        t.buffer.finite() && 0 as real <= t.buffer.value() && t.buffer.value() < 10000 as real,
        t.gas.finite() && 0 as real <= t.gas.value(),
{
    reveal(crate::actors::pricing::opportunities);
    lemma_rate(t.fee);
    lemma_rate(t.buffer);
    crate::actors::pricing::values::lemma_constants();
    crate::double::error::lemma_order(Double::nought(), t.gas);
    crate::double::error::lemma_order(q.bid, q.ask);
}

/// The hedge is for the configured size where token1 was sold on chain, whatever came out, and for
/// what came out where it was bought, whatever was configured; it needs that amount, and the
/// amount must be positive.
pub proof fn law_hedge_sizes(
    configured: Double,
    other: Double,
    amount: Double,
    amount_out: Option<Double>,
)
    ensures
        crate::actors::pricing::hedge_size(ArbDirection::BuyDiff, configured, amount_out)
            == if configured.positive() {
            Ok::<Double, PricingError>(configured)
        } else {
            Err::<Double, PricingError>(PricingError::BadHedgeSize)
        },
        crate::actors::pricing::hedge_size(ArbDirection::SellDiff, configured, Some(amount))
            == if amount.positive() {
            Ok::<Double, PricingError>(amount)
        } else {
            Err::<Double, PricingError>(PricingError::BadHedgeSize)
        },
        crate::actors::pricing::hedge_size(ArbDirection::SellDiff, configured, None) == Err::<
            Double,
            PricingError,
        >(PricingError::AmountOutMissing),
        crate::actors::pricing::hedge_size(ArbDirection::SellDiff, configured, amount_out)
            == crate::actors::pricing::hedge_size(ArbDirection::SellDiff, other, amount_out),
{
}

/// Data are fresh from their arrival on until they are too old, and two of them belong together
/// where they arrived within the skew of each other.
pub proof fn law_fresh_data_are_recent(a: u64, b: u64, now: u64, age: u64, skew: u64)
    ensures
        crate::actors::pricing::fresh(a, now, age) <==> a <= now <= a + age,
        crate::actors::pricing::both_fresh(a, b, now, age, skew) <==> {
            &&& a <= now <= a + age
            &&& b <= now <= b + age
            &&& a <= b + skew
            &&& b <= a + skew
        },
{
}

} // verus!
