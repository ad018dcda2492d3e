//! What a trade must bring to pay.
use vstd::prelude::*;

use crate::config::{Config, PairConfig};
use crate::double::Double;
use crate::liquid::client::{normalize_spot_order, NormalizedSpotOrder, OrderError};
use crate::liquid::markets::LiquidMarketRules;
use crate::types::market::{DexName, EvmPrice, OrderBook};

pub mod break_even;
pub mod estimates;
pub mod fills;
pub mod laws;
pub mod plans;
pub mod values;

verus! {

/// Which way round a trade goes.
#[derive(Debug, Clone, Copy, PartialEq, Eq, Structural)]
pub enum ArbDirection {
    /// Sell token1 on chain, buy it back on the order book.
    BuyDiff,
    /// Buy token1 on chain, sell it on the order book.
    SellDiff,
}

impl ArbDirection {
    /// Its name in metrics and records.
    pub open spec fn name(self) -> Seq<char> {
        match self {
            ArbDirection::BuyDiff => "buy_diff"@,
            ArbDirection::SellDiff => "sell_diff"@,
        }
    }

    /// The name under which the direction is recorded and measured.
    pub fn label(self) -> (text: &'static str)
        ensures
            text@ == self.name(),
    {
        match self {
            ArbDirection::BuyDiff => "buy_diff",
            ArbDirection::SellDiff => "sell_diff",
        }
    }

    /// Whether the second leg buys.
    pub open spec fn hedge_buys(self) -> bool {
        self == ArbDirection::BuyDiff
    }
}

/// The amounts that the economic rules speak of.
#[derive(Debug, Clone, Copy, PartialEq, Eq, Structural)]
pub enum Amount {
    HedgeSize,
    EvmAmountIn,
}

/// Why a trade cannot be priced.
#[derive(Debug, Clone, Copy, PartialEq, Eq, Structural)]
pub enum PricingError {
    UnsoundBook,
    SlippageOutOfRange,
    BadAmount(Amount),
    BadWorstPrice,
    FeeOutOfRange,
    BufferOutOfRange,
    BadGasCost,
    AmountOutMissing,
    BadHedgeSize,
    UnsoundPrices,
    Order(OrderError),
}

impl PricingError {
    /// What is said of it to people.
    pub open spec fn text(self) -> Seq<char> {
        match self {
            PricingError::UnsoundBook => "订单簿必须是有限、正数且 bid <= ask"@,
            PricingError::SlippageOutOfRange => "LIMIT_SLIPPAGE 必须位于 [0, 10000)"@,
            PricingError::BadAmount(Amount::HedgeSize) => "hedge_size_token1 数值无效"@,
            PricingError::BadAmount(Amount::EvmAmountIn) => "evm_amount_in 数值无效"@,
            PricingError::BadWorstPrice => "worst_liquid_price 数值无效"@,
            PricingError::FeeOutOfRange => "liquid_fee_bps 必须位于 [0, 10000)"@,
            PricingError::BufferOutOfRange => "profit_buffer_bps 必须位于 [0, 10000)"@,
            PricingError::BadGasCost => "gas_cost_usdc 数值无效"@,
            PricingError::AmountOutMissing => "sell_diff 缺少 EVM amount_out，不能猜测对冲数量"@,
            PricingError::BadHedgeSize => "对冲数量必须是正有限数"@,
            PricingError::UnsoundPrices => "价格数据必须是正有限数且 bid <= ask"@,
            PricingError::Order(error) => error.text(),
        }
    }

    /// The message for people.
    pub fn message(self) -> (text: String)
        ensures
            text@ == self.text(),
    {
        match self {
            PricingError::UnsoundBook => "订单簿必须是有限、正数且 bid <= ask".to_owned(),
            PricingError::SlippageOutOfRange => "LIMIT_SLIPPAGE 必须位于 [0, 10000)".to_owned(),
            PricingError::BadAmount(Amount::HedgeSize) => "hedge_size_token1 数值无效".to_owned(),
            PricingError::BadAmount(Amount::EvmAmountIn) => "evm_amount_in 数值无效".to_owned(),
            PricingError::BadWorstPrice => "worst_liquid_price 数值无效".to_owned(),
            PricingError::FeeOutOfRange => "liquid_fee_bps 必须位于 [0, 10000)".to_owned(),
            PricingError::BufferOutOfRange => "profit_buffer_bps 必须位于 [0, 10000)".to_owned(),
            PricingError::BadGasCost => "gas_cost_usdc 数值无效".to_owned(),
            PricingError::AmountOutMissing => "sell_diff 缺少 EVM amount_out，不能猜测对冲数量".to_owned(),
            PricingError::BadHedgeSize => "对冲数量必须是正有限数".to_owned(),
            PricingError::UnsoundPrices => "价格数据必须是正有限数且 bid <= ask".to_owned(),
            PricingError::Order(error) => error.message(),
        }
    }
}

/// A book whose two prices are positive numbers that do not cross.
pub open spec fn sound_book(bid: Double, ask: Double) -> bool {
    bid.positive() && ask.positive() && bid.at_most(ask)
}

/// A rate in [0, 10000) basis points.
pub open spec fn proper_rate(rate: Double) -> bool {
    rate.finite() && Double::nought().at_most(rate) && rate.less(Double::basis_points())
}

/// One and a rate more.
pub open spec fn raised_by(rate: Double) -> Double {
    Double::one().sum(rate.quotient(Double::basis_points()))
}

/// One and a rate less.
pub open spec fn lowered_by(rate: Double) -> Double {
    Double::one().difference(rate.quotient(Double::basis_points()))
}

/// The worst price at which the second leg may be filled, slippage included.
pub open spec fn worst_price(
    direction: ArbDirection,
    bid: Double,
    ask: Double,
    limit_slippage_bps: Double,
) -> Double {
    match direction {
        ArbDirection::BuyDiff => ask.product(raised_by(limit_slippage_bps)),
        ArbDirection::SellDiff => bid.product(lowered_by(limit_slippage_bps)),
    }
}

/// The worst price, or why there is none.
pub open spec fn worst_price_result(
    direction: ArbDirection,
    bid: Double,
    ask: Double,
    limit_slippage_bps: Double,
) -> Result<Double, PricingError> {
    if !sound_book(bid, ask) {
        Err(PricingError::UnsoundBook)
    } else if !proper_rate(limit_slippage_bps) {
        Err(PricingError::SlippageOutOfRange)
    } else {
        Ok(worst_price(direction, bid, ask, limit_slippage_bps))
    }
}

fn is_sound_book(bid: Double, ask: Double) -> (sound: bool)
    ensures
        sound == sound_book(bid, ask),
{
    bid.is_positive() && ask.is_positive() && bid.is_at_most(ask)
}

/// Whether a rate lies in [0, 10000) basis points.
pub fn is_proper_rate(rate: Double) -> (proper: bool)
    ensures
        proper == proper_rate(rate),
{
    rate.is_finite() && Double::nought().is_at_most(rate) && rate.is_less(Double::basis_points())
}

fn raise_by(rate: Double) -> (factor: Double)
    ensures
        factor == raised_by(rate),
{
    Double::one().plus(rate.over(Double::basis_points()))
}

/// One and a rate less.
pub fn lower_by(rate: Double) -> (factor: Double)
    ensures
        factor == lowered_by(rate),
{
    Double::one().minus(rate.over(Double::basis_points()))
}

/// The worst price at which the second leg may be filled, slippage included.
pub fn worst_case_liquid_price(
    direction: ArbDirection,
    bid: Double,
    ask: Double,
    limit_slippage_bps: Double,
) -> (result: Result<Double, PricingError>)
    ensures
        result == worst_price_result(direction, bid, ask, limit_slippage_bps),
{
    if !is_sound_book(bid, ask) {
        return Err(PricingError::UnsoundBook);
    }
    if !is_proper_rate(limit_slippage_bps) {
        return Err(PricingError::SlippageOutOfRange);
    }
    Ok(
        match direction {
            ArbDirection::BuyDiff => ask.times(raise_by(limit_slippage_bps)),
            ArbDirection::SellDiff => bid.times(lower_by(limit_slippage_bps)),
        },
    )
}

/// What is wrong with the terms of a trade, if anything.
pub open spec fn terms_fault(
    amount: Double,
    name: Amount,
    worst_liquid_price: Double,
    liquid_fee_bps: Double,
    profit_buffer_bps: Double,
    gas_cost_usdc: Double,
) -> Option<PricingError> {
    if !amount.positive() {
        Some(PricingError::BadAmount(name))
    } else if !worst_liquid_price.positive() {
        Some(PricingError::BadWorstPrice)
    } else if !proper_rate(liquid_fee_bps) {
        Some(PricingError::FeeOutOfRange)
    } else if !proper_rate(profit_buffer_bps) {
        Some(PricingError::BufferOutOfRange)
    } else if !(gas_cost_usdc.finite() && Double::nought().at_most(gas_cost_usdc)) {
        Some(PricingError::BadGasCost)
    } else {
        None
    }
}

/// Refuses terms that no trade can be priced on.
pub fn validate_economic_terms(
    amount: Double,
    amount_name: Amount,
    worst_liquid_price: Double,
    liquid_fee_bps: Double,
    profit_buffer_bps: Double,
    gas_cost_usdc: Double,
) -> (result: Result<(), PricingError>)
    ensures
        result == match terms_fault(
            amount,
            amount_name,
            worst_liquid_price,
            liquid_fee_bps,
            profit_buffer_bps,
            gas_cost_usdc,
        ) {
            Some(fault) => Err::<(), PricingError>(fault),
            None => Ok::<(), PricingError>(()),
        },
{
    if !amount.is_positive() {
        return Err(PricingError::BadAmount(amount_name));
    }
    if !worst_liquid_price.is_positive() {
        return Err(PricingError::BadWorstPrice);
    }
    if !is_proper_rate(liquid_fee_bps) {
        return Err(PricingError::FeeOutOfRange);
    }
    if !is_proper_rate(profit_buffer_bps) {
        return Err(PricingError::BufferOutOfRange);
    }
    if !(gas_cost_usdc.is_finite() && Double::nought().is_at_most(gas_cost_usdc)) {
        return Err(PricingError::BadGasCost);
    }
    Ok(())
}

/// What the hedge costs: the size at the worst price, fee, buffer and gas on top.
pub open spec fn buy_floor(
    hedge_size: Double,
    worst_liquid_price: Double,
    liquid_fee_bps: Double,
    profit_buffer_bps: Double,
    gas_cost_usdc: Double,
) -> Double {
    hedge_size.product(worst_liquid_price).product(
        raised_by(liquid_fee_bps.sum(profit_buffer_bps)),
    ).sum(gas_cost_usdc)
}

/// How much token1 pays for the amount spent, with buffer and gas, at the worst price less the
/// fee.
pub open spec fn sell_floor(
    evm_amount_in: Double,
    worst_liquid_price: Double,
    liquid_fee_bps: Double,
    profit_buffer_bps: Double,
    gas_cost_usdc: Double,
) -> Double {
    evm_amount_in.product(raised_by(profit_buffer_bps)).sum(gas_cost_usdc).quotient(
        worst_liquid_price.product(lowered_by(liquid_fee_bps)),
    )
}

/// What [`minimum_buy_evm_output`] gives.
pub open spec fn buy_floor_result(
    hedge_size: Double,
    worst_liquid_price: Double,
    liquid_fee_bps: Double,
    profit_buffer_bps: Double,
    gas_cost_usdc: Double,
) -> Result<Double, PricingError> {
    match terms_fault(
        hedge_size,
        Amount::HedgeSize,
        worst_liquid_price,
        liquid_fee_bps,
        profit_buffer_bps,
        gas_cost_usdc,
    ) {
        Some(fault) => Err(fault),
        None => Ok(
            buy_floor(
                hedge_size,
                worst_liquid_price,
                liquid_fee_bps,
                profit_buffer_bps,
                gas_cost_usdc,
            ),
        ),
    }
}

/// What [`minimum_sell_evm_output`] gives.
pub open spec fn sell_floor_result(
    evm_amount_in: Double,
    worst_liquid_price: Double,
    liquid_fee_bps: Double,
    profit_buffer_bps: Double,
    gas_cost_usdc: Double,
) -> Result<Double, PricingError> {
    match terms_fault(
        evm_amount_in,
        Amount::EvmAmountIn,
        worst_liquid_price,
        liquid_fee_bps,
        profit_buffer_bps,
        gas_cost_usdc,
    ) {
        Some(fault) => Err(fault),
        None => Ok(
            sell_floor(
                evm_amount_in,
                worst_liquid_price,
                liquid_fee_bps,
                profit_buffer_bps,
                gas_cost_usdc,
            ),
        ),
    }
}

/// The least USDC that selling token1 on chain must bring.
pub fn minimum_buy_evm_output(
    hedge_size_token1: Double,
    worst_liquid_price: Double,
    liquid_fee_bps: Double,
    profit_buffer_bps: Double,
    gas_cost_usdc: Double,
) -> (result: Result<Double, PricingError>)
    ensures
        result == buy_floor_result(
            hedge_size_token1,
            worst_liquid_price,
            liquid_fee_bps,
            profit_buffer_bps,
            gas_cost_usdc,
        ),
{
    match validate_economic_terms(
        hedge_size_token1,
        Amount::HedgeSize,
        worst_liquid_price,
        liquid_fee_bps,
        profit_buffer_bps,
        gas_cost_usdc,
    ) {
        Ok(()) => {},
        Err(error) => {
            return Err(error);
        },
    }
    let hedge_cost: Double = hedge_size_token1.times(worst_liquid_price);
    Ok(
        hedge_cost.times(raise_by(liquid_fee_bps.plus(profit_buffer_bps))).plus(gas_cost_usdc),
    )
}

/// The least token1 that spending USDC on chain must bring.
pub fn minimum_sell_evm_output(
    evm_amount_in: Double,
    worst_liquid_price: Double,
    liquid_fee_bps: Double,
    profit_buffer_bps: Double,
    gas_cost_usdc: Double,
) -> (result: Result<Double, PricingError>)
    ensures
        result == sell_floor_result(
            evm_amount_in,
            worst_liquid_price,
            liquid_fee_bps,
            profit_buffer_bps,
            gas_cost_usdc,
        ),
{
    match validate_economic_terms(
        evm_amount_in,
        Amount::EvmAmountIn,
        worst_liquid_price,
        liquid_fee_bps,
        profit_buffer_bps,
        gas_cost_usdc,
    ) {
        Ok(()) => {},
        Err(error) => {
            return Err(error);
        },
    }
    let required_proceeds: Double = evm_amount_in.times(raise_by(profit_buffer_bps)).plus(
        gas_cost_usdc,
    );
    Ok(required_proceeds.over(worst_liquid_price.times(lower_by(liquid_fee_bps))))
}

/// A trade that the current prices offer.
#[derive(Debug, Clone, Copy, PartialEq, Eq, Structural)]
pub struct TradePlan {
    pub direction: ArbDirection,
    pub diff_bps: Double,
    pub minimum_diff_bps: Double,
    pub amount_in: Double,
    pub target_amount: Double,
    pub dex: DexName,
    pub enabled: bool,
    pub economically_safe: bool,
}

impl TradePlan {
    /// The trade is allowed, pays at the quoted price, and its difference reaches the threshold.
    pub open spec fn triggered(self) -> bool {
        self.enabled && self.economically_safe && self.minimum_diff_bps.at_most(self.diff_bps)
    }

    /// Whether the trade is to be made.
    pub fn is_triggered(self) -> (result: bool)
        ensures
            result == self.triggered(),
    {
        self.enabled && self.economically_safe && self.minimum_diff_bps.is_at_most(self.diff_bps)
    }
}

/// The second leg of a trade as the exchange takes it: the worst price, rounded to the precision
/// of the market.
#[verifier::opaque]
pub open spec fn hedge_order(
    direction: ArbDirection,
    bid: Double,
    ask: Double,
    limit_slippage_bps: Double,
    size: Double,
    size_decimals: u8,
) -> Result<NormalizedSpotOrder, PricingError> {
    match worst_price_result(direction, bid, ask, limit_slippage_bps) {
        Err(error) => Err(error),
        Ok(price) => match crate::liquid::client::normalized_order(
            direction.hedge_buys(),
            price,
            size,
            size_decimals,
        ) {
            Err(error) => Err(PricingError::Order(error)),
            Ok(order) => Ok(order),
        },
    }
}

/// Prices the second leg. Judging a chance and placing the order both go through here.
pub fn normalized_worst_liquid_price(
    direction: ArbDirection,
    order_book: &OrderBook,
    limit_slippage_bps: Double,
    size: Double,
    size_decimals: u8,
) -> (result: Result<NormalizedSpotOrder, PricingError>)
    ensures
        result == hedge_order(
            direction,
            order_book.bid,
            order_book.ask,
            limit_slippage_bps,
            size,
            size_decimals,
        ),
{
    proof {
        reveal(hedge_order);
    }
    let price: Double = match worst_case_liquid_price(
        direction,
        order_book.bid,
        order_book.ask,
        limit_slippage_bps,
    ) {
        Ok(price) => price,
        Err(error) => {
            return Err(error);
        },
    };
    let is_buy: bool = match direction {
        ArbDirection::BuyDiff => true,
        ArbDirection::SellDiff => false,
    };
    match normalize_spot_order(is_buy, price, size, size_decimals) {
        Ok(order) => Ok(order),
        Err(error) => Err(PricingError::Order(error)),
    }
}

/// What part of judging a chance failed.
#[derive(Debug, Clone, Copy, PartialEq, Eq, Structural)]
pub enum EvaluationStep {
    Prices,
    BuyWorstPrice,
    SellWorstPrice,
    BuyFloor,
    SellFloor,
}

/// Why the current prices cannot be judged.
#[derive(Debug, Clone, Copy, PartialEq, Eq, Structural)]
pub struct EvaluationError {
    pub step: EvaluationStep,
    pub cause: PricingError,
}

impl EvaluationError {
    /// What is said of it to people.
    pub open spec fn text(self) -> Seq<char> {
        match self.step {
            EvaluationStep::Prices => self.cause.text(),
            EvaluationStep::BuyWorstPrice => "buy_diff HL 最坏价格无效"@,
            EvaluationStep::SellWorstPrice => "sell_diff HL 最坏价格无效"@,
            EvaluationStep::BuyFloor => "buy_diff 经济下限计算失败"@,
            EvaluationStep::SellFloor => "sell_diff 经济下限计算失败"@,
        }
    }

    /// The message for people.
    pub fn message(self) -> (text: String)
        ensures
            text@ == self.text(),
    {
        match self.step {
            EvaluationStep::Prices => self.cause.message(),
            EvaluationStep::BuyWorstPrice => "buy_diff HL 最坏价格无效".to_owned(),
            EvaluationStep::SellWorstPrice => "sell_diff HL 最坏价格无效".to_owned(),
            EvaluationStep::BuyFloor => "buy_diff 经济下限计算失败".to_owned(),
            EvaluationStep::SellFloor => "sell_diff 经济下限计算失败".to_owned(),
        }
    }
}

/// The terms on which chances are judged.
pub ghost struct Terms {
    pub size: Double,
    pub limit_slippage: Double,
    pub ask_diff: Double,
    pub bid_diff: Double,
    pub enable_sell: bool,
    pub fee: Double,
    pub buffer: Double,
    pub gas: Double,
    pub size_decimals: u8,
}

/// The prices at which chances are judged.
pub ghost struct Quotes {
    pub evm_buy: Double,
    pub evm_sell: Double,
    pub buy_dex: DexName,
    pub sell_dex: DexName,
    pub bid: Double,
    pub ask: Double,
}

/// The terms in a configuration.
pub open spec fn terms_of(global: Config, pair: PairConfig, size_decimals: u8) -> Terms {
    Terms {
        size: pair.order_size_token1,
        limit_slippage: pair.limit_slippage,
        ask_diff: pair.ask_diff_percent,
        bid_diff: pair.bid_diff_percent,
        enable_sell: pair.enable_sell_arb,
        fee: global.liquid_fee_bps,
        buffer: global.profit_buffer_bps,
        gas: global.gas_cost_usdc,
        size_decimals,
    }
}

/// The prices in market data.
pub open spec fn quotes_of(evm: EvmPrice, book: OrderBook) -> Quotes {
    Quotes {
        evm_buy: evm.buy_price,
        evm_sell: evm.sell_price,
        buy_dex: evm.buy_dex,
        sell_dex: evm.sell_dex,
        bid: book.bid,
        ask: book.ask,
    }
}

impl Quotes {
    /// All prices are positive numbers, and the book does not cross.
    pub open spec fn sound(self) -> bool {
        self.evm_sell.positive() && self.evm_buy.positive() && sound_book(self.bid, self.ask)
    }

    /// How far selling on chain lies above buying on the book, in basis points.
    pub open spec fn buy_diff(self) -> Double {
        self.evm_sell.difference(self.ask).quotient(self.evm_sell).product(Double::basis_points())
    }

    /// How far selling on the book lies above buying on chain, in basis points.
    pub open spec fn sell_diff(self) -> Double {
        self.bid.difference(self.evm_buy).quotient(self.bid).product(Double::basis_points())
    }
}

/// The price difference at which selling on chain for `target` just pays.
pub open spec fn buy_economic_diff(size: Double, ask: Double, target: Double) -> Double {
    let least_price: Double = target.quotient(size);
    least_price.difference(ask).quotient(least_price).product(Double::basis_points())
}

/// The price difference at which buying on chain just pays.
pub open spec fn sell_economic_diff(
    size: Double,
    bid: Double,
    worst: Double,
    fee: Double,
    buffer: Double,
    gas: Double,
) -> Double {
    let most_price: Double = size.product(worst).product(lowered_by(fee)).difference(gas).quotient(
        size.product(raised_by(buffer)),
    );
    bid.difference(most_price).quotient(bid).product(Double::basis_points())
}

/// The chance of selling on chain, given the worst price of the hedge.
pub open spec fn buy_plan(t: Terms, q: Quotes, worst: Double) -> TradePlan {
    let target: Double = buy_floor(t.size, worst, t.fee, t.buffer, t.gas);
    TradePlan {
        direction: ArbDirection::BuyDiff,
        diff_bps: q.buy_diff(),
        minimum_diff_bps: t.ask_diff.larger(buy_economic_diff(t.size, q.ask, target)),
        amount_in: t.size,
        target_amount: target,
        dex: q.sell_dex,
        enabled: true,
        economically_safe: target.at_most(t.size.product(q.evm_sell)),
    }
}

/// The chance of buying on chain, given the worst price of the hedge.
pub open spec fn sell_plan(t: Terms, q: Quotes, worst: Double) -> TradePlan {
    let amount_in: Double = t.size.product(q.evm_buy);
    let target: Double = sell_floor(amount_in, worst, t.fee, t.buffer, t.gas);
    TradePlan {
        direction: ArbDirection::SellDiff,
        diff_bps: q.sell_diff(),
        minimum_diff_bps: t.bid_diff.larger(
            sell_economic_diff(t.size, q.bid, worst, t.fee, t.buffer, t.gas),
        ),
        amount_in,
        target_amount: target,
        dex: q.buy_dex,
        enabled: t.enable_sell,
        economically_safe: target.at_most(t.size),
    }
}

/// The two chances that the prices offer, or why they cannot be judged.
#[verifier::opaque]
pub open spec fn opportunities(t: Terms, q: Quotes) -> Result<
    (TradePlan, TradePlan),
    EvaluationError,
> {
    let buy_order: Result<NormalizedSpotOrder, PricingError> = hedge_order(
        ArbDirection::BuyDiff,
        q.bid,
        q.ask,
        t.limit_slippage,
        t.size,
        t.size_decimals,
    );
    let sell_order: Result<NormalizedSpotOrder, PricingError> = hedge_order(
        ArbDirection::SellDiff,
        q.bid,
        q.ask,
        t.limit_slippage,
        t.size,
        t.size_decimals,
    );
    if !q.sound() {
        Err(EvaluationError { step: EvaluationStep::Prices, cause: PricingError::UnsoundPrices })
    } else if let Err(cause) = buy_order {
        Err(EvaluationError { step: EvaluationStep::BuyWorstPrice, cause })
    } else if let Err(cause) = sell_order {
        Err(EvaluationError { step: EvaluationStep::SellWorstPrice, cause })
    } else if let Some(cause) = terms_fault(
        t.size,
        Amount::HedgeSize,
        buy_order->Ok_0.price,
        t.fee,
        t.buffer,
        t.gas,
    ) {
        Err(EvaluationError { step: EvaluationStep::BuyFloor, cause })
    } else if let Some(cause) = terms_fault(
        t.size.product(q.evm_buy),
        Amount::EvmAmountIn,
        sell_order->Ok_0.price,
        t.fee,
        t.buffer,
        t.gas,
    ) {
        Err(EvaluationError { step: EvaluationStep::SellFloor, cause })
    } else {
        Ok((buy_plan(t, q, buy_order->Ok_0.price), sell_plan(t, q, sell_order->Ok_0.price)))
    }
}

/// Judges the two chances that the current prices offer.
pub fn evaluate_opportunities(
    global: &Config,
    pair: &PairConfig,
    liquid_rules: &LiquidMarketRules,
    evm: &EvmPrice,
    order_book: &OrderBook,
) -> (result: Result<(TradePlan, TradePlan), EvaluationError>)
    ensures
        result == opportunities(
            terms_of(*global, *pair, liquid_rules.size_decimals),
            quotes_of(*evm, *order_book),
        ),
{
    proof {
        reveal(opportunities);
    }
    if !(evm.sell_price.is_positive() && evm.buy_price.is_positive() && is_sound_book(
        order_book.bid,
        order_book.ask,
    )) {
        return Err(
            EvaluationError { step: EvaluationStep::Prices, cause: PricingError::UnsoundPrices },
        );
    }
    let bps: Double = Double::basis_points();
    let size: Double = pair.order_size_token1;
    let buy_diff: Double = evm.sell_price.minus(order_book.ask).over(evm.sell_price).times(bps);
    let sell_diff: Double = order_book.bid.minus(evm.buy_price).over(order_book.bid).times(bps);
    let buy_worst_price: Double = match normalized_worst_liquid_price(
        ArbDirection::BuyDiff,
        order_book,
        pair.limit_slippage,
        size,
        liquid_rules.size_decimals,
    ) {
        Ok(order) => order.price,
        Err(cause) => {
            return Err(EvaluationError { step: EvaluationStep::BuyWorstPrice, cause });
        },
    };
    let sell_worst_price: Double = match normalized_worst_liquid_price(
        ArbDirection::SellDiff,
        order_book,
        pair.limit_slippage,
        size,
        liquid_rules.size_decimals,
    ) {
        Ok(order) => order.price,
        Err(cause) => {
            return Err(EvaluationError { step: EvaluationStep::SellWorstPrice, cause });
        },
    };
    let sell_amount_in: Double = size.times(evm.buy_price);
    let buy_target: Double = match minimum_buy_evm_output(
        size,
        buy_worst_price,
        global.liquid_fee_bps,
        global.profit_buffer_bps,
        global.gas_cost_usdc,
    ) {
        Ok(target) => target,
        Err(cause) => {
            return Err(EvaluationError { step: EvaluationStep::BuyFloor, cause });
        },
    };
    let sell_target: Double = match minimum_sell_evm_output(
        sell_amount_in,
        sell_worst_price,
        global.liquid_fee_bps,
        global.profit_buffer_bps,
        global.gas_cost_usdc,
    ) {
        Ok(target) => target,
        Err(cause) => {
            return Err(EvaluationError { step: EvaluationStep::SellFloor, cause });
        },
    };
    let minimum_evm_sell_price: Double = buy_target.over(size);
    let buy_economic_bps: Double = minimum_evm_sell_price.minus(order_book.ask).over(
        minimum_evm_sell_price,
    ).times(bps);
    let maximum_evm_buy_price: Double = size.times(sell_worst_price).times(
        lower_by(global.liquid_fee_bps),
    ).minus(global.gas_cost_usdc).over(size.times(raise_by(global.profit_buffer_bps)));
    let sell_economic_bps: Double = order_book.bid.minus(maximum_evm_buy_price).over(
        order_book.bid,
    ).times(bps);
    Ok(
        (
            TradePlan {
                direction: ArbDirection::BuyDiff,
                diff_bps: buy_diff,
                minimum_diff_bps: pair.ask_diff_percent.max(buy_economic_bps),
                amount_in: size,
                target_amount: buy_target,
                dex: evm.sell_dex,
                enabled: true,
                economically_safe: buy_target.is_at_most(size.times(evm.sell_price)),
            },
            TradePlan {
                direction: ArbDirection::SellDiff,
                diff_bps: sell_diff,
                minimum_diff_bps: pair.bid_diff_percent.max(sell_economic_bps),
                amount_in: sell_amount_in,
                target_amount: sell_target,
                dex: evm.buy_dex,
                enabled: pair.enable_sell_arb,
                economically_safe: sell_target.is_at_most(size),
            },
        ),
    )
}

/// How much token1 the second leg is for: the configured size where it was sold on chain, what
/// actually came out where it was bought.
pub open spec fn hedge_size(
    direction: ArbDirection,
    configured: Double,
    amount_out: Option<Double>,
) -> Result<Double, PricingError> {
    let size: Option<Double> = match direction {
        ArbDirection::BuyDiff => Some(configured),
        ArbDirection::SellDiff => amount_out,
    };
    match size {
        None => Err(PricingError::AmountOutMissing),
        Some(size) => if size.positive() {
            Ok(size)
        } else {
            Err(PricingError::BadHedgeSize)
        },
    }
}

/// How much token1 the second leg is for.
pub fn hedge_size_token1(
    direction: ArbDirection,
    configured_size_token1: Double,
    evm_amount_out: Option<Double>,
) -> (result: Result<Double, PricingError>)
    ensures
        result == hedge_size(direction, configured_size_token1, evm_amount_out),
{
    let size: Double = match direction {
        ArbDirection::BuyDiff => configured_size_token1,
        ArbDirection::SellDiff => match evm_amount_out {
            Some(amount) => amount,
            None => {
                return Err(PricingError::AmountOutMissing);
            },
        },
    };
    if !size.is_positive() {
        return Err(PricingError::BadHedgeSize);
    }
    Ok(size)
}

/// Whether a fill covers the order, up to a relative 10^-9 and an absolute 10^-12 for what
/// decimal text loses.
#[verifier::opaque]
pub open spec fn complete_fill(expected: Double, actual: Double) -> bool {
    &&& expected.positive()
    &&& actual.finite()
    &&& Double::nought().at_most(actual)
    &&& expected.at_most(
        actual.sum(
            expected.absolute().product(Double::billionth()).sum(Double::trillionth()),
        ),
    )
}

/// Whether a fill covers the order; a partial fill never counts as one.
pub fn fill_is_complete(expected: Double, actual: Double) -> (complete: bool)
    ensures
        complete == complete_fill(expected, actual),
{
    proof {
        reveal(complete_fill);
    }
    if !expected.is_positive() || !actual.is_finite() || !Double::nought().is_at_most(actual) {
        return false;
    }
    let tolerance: Double = expected.abs().times(Double::billionth()).plus(Double::trillionth());
    expected.is_at_most(actual.plus(tolerance))
}

/// A time that is not in the future and not too long ago.
pub open spec fn fresh(timestamp: u64, now: u64, max_age_ms: u64) -> bool {
    timestamp <= now && now - timestamp <= max_age_ms
}

/// Two fresh times that do not lie too far apart.
pub open spec fn both_fresh(a: u64, b: u64, now: u64, max_age_ms: u64, max_skew_ms: u64) -> bool {
    &&& fresh(a, now, max_age_ms)
    &&& fresh(b, now, max_age_ms)
    &&& a - b <= max_skew_ms
    &&& b - a <= max_skew_ms
}

/// Whether a time is not in the future and not too long ago.
pub fn timestamp_is_fresh(timestamp: u64, now: u64, max_age_ms: u64) -> (result: bool)
    ensures
        result == fresh(timestamp, now, max_age_ms),
{
    timestamp <= now && now - timestamp <= max_age_ms
}

/// Whether both markets' data are fresh and belong together.
pub fn market_data_is_fresh(
    evm_received_at: u64,
    orderbook_received_at: u64,
    now: u64,
    max_age_ms: u64,
    max_skew_ms: u64,
) -> (result: bool)
    ensures
        result == both_fresh(
            evm_received_at,
            orderbook_received_at,
            now,
            max_age_ms,
            max_skew_ms,
        ),
{
    let apart: u64 = if evm_received_at < orderbook_received_at {
        orderbook_received_at - evm_received_at
    } else {
        evm_received_at - orderbook_received_at
    };
    timestamp_is_fresh(evm_received_at, now, max_age_ms) && timestamp_is_fresh(
        orderbook_received_at,
        now,
        max_age_ms,
    ) && apart <= max_skew_ms
}

} // verus!
