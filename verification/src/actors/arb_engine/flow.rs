//! How a trade goes on from each stage, and what it carries along.
use vstd::prelude::*;

use crate::actors::arb_engine::model::Model;
use crate::actors::arb_engine::steps::{
    ActionView, ArbState, EffectView, EngineEvent, InFlightCycle, Pending, StepView, TurnView,
};
use crate::actors::pricing::{ArbDirection, Quotes, Terms, TradePlan};
use crate::config::{Config, PairConfig};
use crate::double::Double;
use crate::liquid::client::NormalizedSpotOrder;
use crate::types::commands::{EvmSwapRequest, LiquidCommand};
use crate::types::market::{EvmPrice, OrderBook};

verus! {

/// Whether an engine can place an order for a trade: its book is at most five seconds old and not
/// from the future, and the exchange takes the order for what is to be hedged, which is the
/// configured size where token1 was sold on chain, and what came out where it was bought.
pub open spec fn can_order(
    m: Model,
    dir: ArbDirection,
    amount_out: Option<Double>,
    now: u64,
    order: NormalizedSpotOrder,
) -> bool {
    &&& m.book is Some
    &&& m.book->Some_0.received_at <= now
    &&& now - m.book->Some_0.received_at <= 5000
    &&& dir == ArbDirection::SellDiff ==> amount_out is Some
    &&& crate::actors::pricing::hedge_order(
        dir,
        m.book->Some_0.bid,
        m.book->Some_0.ask,
        m.terms.limit_slippage,
        if dir == ArbDirection::SellDiff {
            amount_out->Some_0
        } else {
            m.terms.size
        },
        m.terms.size_decimals,
    ) == Ok::<NormalizedSpotOrder, crate::actors::pricing::PricingError>(order)
}

/// Whether a step stores the record that the engine then waits for.
pub open spec fn stores(next: Model, step: StepView) -> bool {
    &&& next.unsaved is Some
    &&& step.action == ActionView::Save(next.unsaved->Some_0)
    &&& step.effects.len() == 0
}

/// A refused order that may be tried again is placed once more wherever that is possible, in
/// either direction: for the same amount, at the price of the newest book. Of the trade, nothing
/// changes but that the retry is used.
pub proof fn law_refused_hedges_are_placed_again(
    m: Model,
    reason: Seq<char>,
    order: NormalizedSpotOrder,
    failure: Option<Seq<char>>,
    now: u64,
    later: u64,
)
    requires
        m.state == ArbState::LiquidOrdering,
        m.cycle is Some,
        !m.cycle->Some_0.liquid_retry_used,
        can_order(m, m.cycle->Some_0.dir, m.cycle->Some_0.evm_amount_out, now, order),
    ensures
        ({
            let cycle: InFlightCycle = m.cycle->Some_0;
            let (next, step): (Model, StepView) = m.after_result(
                crate::types::commands::TradeResultView::LiquidFailed { reason, retriable: true },
                now,
            );
            let (sent, order_step): (Model, StepView) = next.after_answer(failure, later);
            &&& next.state == ArbState::LiquidOrdering
            &&& next.cycle is Some
            &&& next.cycle->Some_0.liquid_retry_used
            &&& next.cycle->Some_0.dir == cycle.dir
            &&& next.cycle->Some_0.evm_amount_out == cycle.evm_amount_out
            &&& next.cycle->Some_0.expected_liquid_size == cycle.expected_liquid_size
            &&& stores(next, step)
            &&& next.unsaved->Some_0.stage == "liquid_pending"@
            &&& next.book == m.book
            &&& sent.state == ArbState::LiquidOrdering
            &&& sent.cycle is Some
            &&& sent.cycle->Some_0.evm_amount_out == cycle.evm_amount_out
            &&& sent.cycle->Some_0.expected_liquid_size == Some(order.size)
            &&& order_step.action == ActionView::Order(
                LiquidCommand::Order {
                    is_buy: cycle.dir == ArbDirection::BuyDiff,
                    price: order.price,
                    size: order.size,
                },
            )
        }),
{
    reveal(crate::actors::pricing::hedge_order);
}

/// A swap that succeeded is hedged wherever that is possible, whether or not its records could be
/// stored: what it brought is remembered, and the order is for the right side, size and price.
pub proof fn law_successful_swaps_are_hedged(
    m: Model,
    amount_out: Double,
    tx_hash: Seq<char>,
    order: NormalizedSpotOrder,
    stored: Option<Seq<char>>,
    failure: Option<Seq<char>>,
    now: u64,
    later: u64,
    last: u64,
)
    requires
        m.state == ArbState::EvmSwapping,
        m.cycle is Some,
        can_order(m, m.cycle->Some_0.dir, Some(amount_out), later, order),
    ensures
        ({
            let cycle: InFlightCycle = m.cycle->Some_0;
            let (confirmed, record_step): (Model, StepView) = m.after_result(
                crate::types::commands::TradeResultView::EvmSwapSuccess { amount_out, tx_hash },
                now,
            );
            let (prepared, step): (Model, StepView) = confirmed.after_answer(stored, later);
            let (sent, order_step): (Model, StepView) = prepared.after_answer(failure, last);
            &&& stores(confirmed, record_step)
            &&& confirmed.unsaved->Some_0.stage == "evm_confirmed"@
            &&& confirmed.unsaved->Some_0.evm_tx_hash == Some(tx_hash)
            &&& confirmed.cycle is Some
            &&& confirmed.cycle->Some_0.evm_amount_out == Some(amount_out)
            &&& stores(prepared, step)
            &&& prepared.unsaved->Some_0.stage == "liquid_pending"@
            &&& sent.state == ArbState::LiquidOrdering
            &&& sent.cycle is Some
            &&& sent.cycle->Some_0.dir == cycle.dir
            &&& sent.cycle->Some_0.evm_amount_out == Some(amount_out)
            &&& sent.cycle->Some_0.liquid_retry_used == cycle.liquid_retry_used
            &&& sent.cycle->Some_0.expected_liquid_size == Some(order.size)
            &&& order_step.action == ActionView::Order(
                LiquidCommand::Order {
                    is_buy: cycle.dir == ArbDirection::BuyDiff,
                    price: order.price,
                    size: order.size,
                },
            )
        }),
{
    reveal(crate::actors::pricing::hedge_order);
}

/// A sale on chain whose proceeds are not known is hedged all the same: its size is the
/// configured one.
pub proof fn law_sales_of_unknown_proceeds_are_hedged(
    m: Model,
    tx_hash: Seq<char>,
    order: NormalizedSpotOrder,
    stored: Option<Seq<char>>,
    failure: Option<Seq<char>>,
    now: u64,
    later: u64,
    last: u64,
)
    requires
        m.state == ArbState::EvmSwapping,
        m.cycle is Some,
        m.cycle->Some_0.dir == ArbDirection::BuyDiff,
        can_order(m, ArbDirection::BuyDiff, None, later, order),
    ensures
        ({
            let (confirmed, record_step): (Model, StepView) = m.after_result(
                crate::types::commands::TradeResultView::EvmSwapConfirmedAmountUnknown { tx_hash },
                now,
            );
            let (prepared, step): (Model, StepView) = confirmed.after_answer(stored, later);
            let (sent, order_step): (Model, StepView) = prepared.after_answer(failure, last);
            &&& stores(confirmed, record_step)
            &&& confirmed.unsaved->Some_0.stage == "evm_confirmed_amount_unknown"@
            &&& confirmed.unsaved->Some_0.evm_tx_hash == Some(tx_hash)
            &&& confirmed.cycle == m.cycle
            &&& sent.state == ArbState::LiquidOrdering
            &&& sent.cycle is Some
            &&& sent.cycle->Some_0.expected_liquid_size == Some(order.size)
            &&& order_step.action == ActionView::Order(
                LiquidCommand::Order { is_buy: true, price: order.price, size: order.size },
            )
        }),
{
    reveal(crate::actors::pricing::hedge_order);
}

/// A swap or an order that cannot be hedged or placed for want of a fresh book stops the pair
/// instead of being guessed at.
pub proof fn law_stale_books_are_not_traded_on(
    m: Model,
    reason: Seq<char>,
    amount_out: Double,
    tx_hash: Seq<char>,
    stored: Option<Seq<char>>,
    now: u64,
    later: u64,
)
    requires
        m.cycle is Some,
        m.book is Some ==> m.book->Some_0.received_at > later || later
            - m.book->Some_0.received_at > 5000,
    ensures
        m.state == ArbState::LiquidOrdering && !m.cycle->Some_0.liquid_retry_used
            ==> m.after_result(
            crate::types::commands::TradeResultView::LiquidFailed { reason, retriable: true },
            later,
        ).0.state == ArbState::RecoveryRequired,
        m.state == ArbState::EvmSwapping ==> m.after_result(
            crate::types::commands::TradeResultView::EvmSwapSuccess { amount_out, tx_hash },
            now,
        ).0.after_answer(stored, later).0.state == ArbState::RecoveryRequired,
{
}

/// As long as a trade lasts it keeps its direction; what the first leg brought, once known, and
/// the use of the retry stay as they are; and the size that is expected of the hedge changes only
/// to that of an order being sent.
pub proof fn law_trades_keep_what_they_know(
    m: Model,
    result: crate::types::commands::TradeResultView,
    failure: Option<Seq<char>>,
    event: EngineEvent,
    now: u64,
)
    requires
        m.sound(),
        m.cycle is Some,
    ensures
        ({
            let cycle: InFlightCycle = m.cycle->Some_0;
            let next: Option<InFlightCycle> = m.after_result(result, now).0.cycle;
            next is Some ==> {
                &&& next->Some_0.dir == cycle.dir
                &&& next->Some_0.expected_liquid_size == cycle.expected_liquid_size
                &&& m.state == ArbState::LiquidOrdering ==> next->Some_0.evm_amount_out
                    == cycle.evm_amount_out
                &&& m.state == ArbState::EvmSwapping ==> next->Some_0.liquid_retry_used
                    == cycle.liquid_retry_used
            }
        }),
        ({
            let cycle: InFlightCycle = m.cycle->Some_0;
            let (model, step): (Model, StepView) = m.after_answer(failure, now);
            let next: Option<InFlightCycle> = model.cycle;
            next is Some ==> {
                &&& next->Some_0.dir == cycle.dir
                &&& next->Some_0.evm_amount_out == cycle.evm_amount_out
                &&& next->Some_0.liquid_retry_used == cycle.liquid_retry_used
                &&& if step.action is Order && step.action->Order_0 is Order {
                    next->Some_0.expected_liquid_size == Some(step.action->Order_0->Order_size)
                } else {
                    next->Some_0.expected_liquid_size == cycle.expected_liquid_size
                }
            }
        }),
        m.after_event(event).0.cycle == m.cycle,
        m.after_event(event).0.state == m.state,
        m.after_event(event).0.pending == m.pending,
{
}

/// A complete fill ends the trade: its record names the order, is erased, and the pair is idle
/// again. A fill that is not complete stops the pair, with the order on record.
pub proof fn law_fills_are_judged_by_what_was_ordered(
    m: Model,
    oid: u64,
    avg_price: Double,
    total_size: Double,
    expected: Double,
    stored: Option<Seq<char>>,
    now: u64,
    later: u64,
    last: u64,
)
    requires
        m.state == ArbState::LiquidOrdering,
        m.cycle is Some,
        m.cycle->Some_0.expected_liquid_size == Some(expected),
    ensures
        ({
            let (filled, record_step): (Model, StepView) = m.after_result(
                crate::types::commands::TradeResultView::LiquidFilled {
                    oid,
                    avg_price,
                    total_size,
                },
                now,
            );
            let (judged, step): (Model, StepView) = filled.after_answer(stored, later);
            let (done, last_step): (Model, StepView) = judged.after_answer(None, last);
            &&& stores(filled, record_step)
            &&& filled.unsaved->Some_0.stage == "liquid_filled"@
            &&& filled.unsaved->Some_0.liquid_oid == Some(oid)
            &&& if crate::actors::pricing::complete_fill(expected, total_size) {
                &&& step.action is Erase
                &&& done.state == ArbState::Idle
                &&& done.cycle is None
                &&& done.record is None
                &&& done.pending == Pending::Nothing
                &&& last_step.effects == seq![EffectView::CycleEnded]
            } else {
                &&& judged.state == ArbState::RecoveryRequired
                &&& step.action is Save
                &&& step.action->Save_0.stage == "recovery_required"@
                &&& stored is None ==> step.action->Save_0.liquid_oid == Some(oid)
            }
        }),
{
}

/// An order that rests is recorded and cancelled, and once it is cancelled the pair stops: the
/// position is not hedged.
pub proof fn law_resting_orders_are_cancelled(
    m: Model,
    oid: u64,
    stored: Option<Seq<char>>,
    now: u64,
    later: u64,
)
    requires
        m.state == ArbState::LiquidOrdering,
    ensures
        ({
            let (resting, record_step): (Model, StepView) = m.after_result(
                crate::types::commands::TradeResultView::LiquidResting { oid },
                now,
            );
            let (cancelling, step): (Model, StepView) = resting.after_answer(stored, later);
            &&& stores(resting, record_step)
            &&& resting.unsaved->Some_0.stage == "liquid_resting"@
            &&& resting.unsaved->Some_0.liquid_oid == Some(oid)
            &&& cancelling.state == ArbState::LiquidOrdering
            &&& cancelling.cycle == m.cycle
            &&& step.action == ActionView::Order(LiquidCommand::Cancel { oid })
        }),
        m.after_result(
            crate::types::commands::TradeResultView::LiquidCancelled { oid },
            now,
        ).0.state == ArbState::RecoveryRequired,
{
}

/// A chance that triggers is taken wherever trading is live, the pair is idle and the data of both
/// markets are at most five seconds old and three seconds apart: the one of selling on chain
/// first. The swap is the one planned, sells token1 for the first kind of chance and buys it for
/// the second, and is sent as soon as its record is stored.
pub proof fn law_triggers_are_taken(
    m: Model,
    evm: EvmPrice,
    book: OrderBook,
    buy: TradePlan,
    sell: TradePlan,
    now: u64,
    later: u64,
    last: u64,
)
    requires
        m.state == ArbState::Idle,
        m.pending == Pending::Nothing,
        !m.dry_run,
        m.evm == Some(evm),
        m.book == Some(book),
        evm.received_at <= now,
        now - evm.received_at <= 5000,
        book.received_at <= now,
        now - book.received_at <= 5000,
        evm.received_at - book.received_at <= 3000,
        book.received_at - evm.received_at <= 3000,
        crate::actors::pricing::opportunities(
            m.terms,
            Quotes {
                evm_buy: evm.buy_price,
                evm_sell: evm.sell_price,
                buy_dex: evm.buy_dex,
                sell_dex: evm.sell_dex,
                bid: book.bid,
                ask: book.ask,
            },
        ) == Ok::<(TradePlan, TradePlan), crate::actors::pricing::EvaluationError>((buy, sell)),
        buy.triggered() || sell.triggered(),
    ensures
        ({
            let plan: TradePlan = if buy.triggered() {
                buy
            } else {
                sell
            };
            let (recorded, record_step): (Model, StepView) = m.after_quote(now);
            let (sending, step): (Model, StepView) = recorded.after_answer(None, later);
            let (swapping, last_step): (Model, StepView) = sending.after_answer(None, last);
            &&& record_step.action is Save
            &&& record_step.action->Save_0.stage == "evm_pending"@
            &&& record_step.action->Save_0.pair == m.symbol
            &&& recorded.cycle is Some
            &&& recorded.cycle->Some_0.dir == if buy.triggered() {
                ArbDirection::BuyDiff
            } else {
                ArbDirection::SellDiff
            }
            &&& recorded.cycle->Some_0.evm_amount_out is None
            &&& recorded.cycle->Some_0.expected_liquid_size is None
            &&& !recorded.cycle->Some_0.liquid_retry_used
            &&& step.action == ActionView::Swap(
                EvmSwapRequest {
                    is_buy: !buy.triggered(),
                    amount_in: plan.amount_in,
                    target_amount: plan.target_amount,
                    dex: plan.dex,
                },
            )
            &&& swapping.state == ArbState::EvmSwapping
            &&& swapping.pending == Pending::Nothing
            &&& swapping.cycle == recorded.cycle
            &&& last_step.action is Wait
        }),
{
    reveal(crate::actors::pricing::opportunities);
}

/// Each comparison is noted as it was made: the prices of both markets under their own names, and
/// the two differences under theirs.
pub proof fn law_comparisons_are_noted_as_made(
    m: Model,
    evm: EvmPrice,
    book: OrderBook,
    buy: TradePlan,
    sell: TradePlan,
    now: u64,
)
    requires
        m.evm == Some(evm),
        m.book == Some(book),
        m.chances(now) == Some((buy, sell)),
    ensures
        ({
            let noted: Seq<EffectView> = m.after_quote(now).1.effects;
            &&& noted.len() >= 6
            &&& noted[5] is Price
            &&& noted[5]->Price_0.pair == m.symbol
            &&& noted[5]->Price_0.evm_buy_price == evm.buy_price
            &&& noted[5]->Price_0.evm_sell_price == evm.sell_price
            &&& noted[5]->Price_0.liquid_ask == book.ask
            &&& noted[5]->Price_0.liquid_bid == book.bid
            &&& noted[5]->Price_0.buy_diff == buy.diff_bps
            &&& noted[5]->Price_0.sell_diff == sell.diff_bps
            &&& measured(noted[0], crate::metrics::Metric::PriceDiffBps, "buy"@, m.symbol, buy.diff_bps)
            &&& measured(noted[1], crate::metrics::Metric::PriceDiffBps, "sell"@, m.symbol, sell.diff_bps)
            &&& noted[2] is Metric
            &&& noted[2]->Metric_0.metric == crate::metrics::Metric::MinProfitBps
            &&& noted[2]->Metric_0.change == crate::metrics::Change::SetTo(buy.minimum_diff_bps)
            &&& measured(noted[3], crate::metrics::Metric::HlPriceUsdc, "ask"@, m.symbol, book.ask)
            &&& measured(noted[4], crate::metrics::Metric::HlPriceUsdc, "bid"@, m.symbol, book.bid)
        }),
{
}

/// Whether an effect sets a metric with two labels to a number.
pub open spec fn measured(
    effect: EffectView,
    metric: crate::metrics::Metric,
    first: Seq<char>,
    second: Seq<char>,
    number: Double,
) -> bool {
    &&& effect is Metric
    &&& effect->Metric_0.metric == metric
    &&& effect->Metric_0.labels == seq![first, second]
    &&& effect->Metric_0.change == crate::metrics::Change::SetTo(number)
}

/// Nothing is judged, noted or begun on data that are older than five seconds, come from the
/// future, or lie more than three seconds apart, nor while the pair is not idle.
pub proof fn law_stale_data_are_not_judged(m: Model, evm: EvmPrice, book: OrderBook, now: u64)
    requires
        m.evm == Some(evm),
        m.book == Some(book),
        ({
            ||| m.state != ArbState::Idle
            ||| evm.received_at > now
            ||| now - evm.received_at > 5000
            ||| book.received_at > now
            ||| now - book.received_at > 5000
            ||| evm.received_at - book.received_at > 3000
            ||| book.received_at - evm.received_at > 3000
        }),
    ensures
        m.after_quote(now).0 == m,
        m.after_quote(now).1.effects.len() == 0,
        m.after_quote(now).1.action is Wait,
{
}

/// Data of the pair take the place of the earlier ones of the same market and of no others; data
/// that were missed no longer count.
pub proof fn law_data_replace_their_own_kind(m: Model, price: EvmPrice, book: OrderBook)
    requires
        price.pair_id@ == m.symbol,
        book.symbol@ == m.symbol,
    ensures
        m.after_event(EngineEvent::Price(price)).0.evm == Some(price),
        m.after_event(EngineEvent::Price(price)).0.book == m.book,
        m.after_event(EngineEvent::Price(price)).1 is Judge,
        m.after_event(EngineEvent::Book(book)).0.book == Some(book),
        m.after_event(EngineEvent::Book(book)).0.evm == m.evm,
        m.after_event(EngineEvent::Book(book)).1 is Judge,
        m.after_event(EngineEvent::PricesLost).0.evm is None,
        m.after_event(EngineEvent::PricesLost).0.book == m.book,
        m.after_event(EngineEvent::BooksLost).0.book is None,
        m.after_event(EngineEvent::BooksLost).0.evm == m.evm,
        m.after_event(EngineEvent::PricesClosed).1 is Stop,
        m.after_event(EngineEvent::BooksClosed).1 is Stop,
        m.after_event(EngineEvent::ShutdownRequested).0.stopping,
        m.after_event(EngineEvent::ShutdownRequested).1 is Continue,
{
}

/// How late a book came is noted exactly where the server gave its time: what the arrival lies
/// after that time, and nothing where it lies before.
pub proof fn law_latency_is_arrival_less_server_time(m: Model, book: OrderBook)
    requires
        book.symbol@ == m.symbol,
    ensures
        ({
            let turn: TurnView = m.after_event(EngineEvent::Book(book)).1;
            &&& turn is Judge
            &&& book.created_at == 0 ==> turn->updates.len() == 0
            &&& book.created_at > 0 ==> {
                &&& turn->updates.len() == 1
                &&& turn->updates[0].metric == crate::metrics::Metric::HlOrderbookLatencyMs
                &&& turn->updates[0].labels == seq![m.symbol]
                &&& book.received_at <= book.created_at ==> turn->updates[0].change
                    == crate::metrics::Change::SetTo(Double::whole(false, 0))
                &&& book.received_at >= book.created_at ==> turn->updates[0].change
                    == crate::metrics::Change::SetTo(
                    Double::whole(false, (book.received_at - book.created_at) as nat),
                )
            }
        }),
{
}

/// A pair that stops for people counts as such under its own name, ends the measured duration of
/// the trade that it was in, if any, and records why, with the addresses of the nodes redacted.
pub proof fn law_stopping_for_people_is_recorded(m: Model, reason: Seq<char>)
    ensures
        ({
            let (next, step): (Model, StepView) = m.recovery(reason);
            let counted: EffectView = step.effects.last();
            &&& next.state == ArbState::RecoveryRequired
            &&& next.cycle is None
            &&& step.action is Save
            &&& step.action->Save_0.pair == m.symbol
            &&& step.action->Save_0.stage == "recovery_required"@
            &&& step.action->Save_0.reason == crate::config::redaction::redacted(
                reason,
                m.https_rpc,
                m.wss_rpc,
            )
            &&& step.action->Save_0.direction == match m.cycle {
                Some(cycle) => cycle.dir.name(),
                None => "unknown"@,
            }
            &&& step.effects.len() == if m.cycle is Some {
                2int
            } else {
                1int
            }
            &&& m.cycle is Some ==> step.effects[0] == EffectView::CycleEnded
            &&& counted is Metric
            &&& counted->Metric_0.metric == crate::metrics::Metric::ArbRecoveryRequiredTotal
            &&& counted->Metric_0.labels == seq![m.symbol]
            &&& counted->Metric_0.change == crate::metrics::Change::Increment
        }),
{
}

/// What cannot be handed over or erased: a swap that was not taken ends the trade without a trace,
/// an order or a cancellation that was not taken stops the pair, and so does a record that cannot
/// be erased.
pub proof fn law_requests_that_fail(m: Model, error: Seq<char>, now: u64, later: u64)
    ensures
        m.pending == Pending::SwapSending ==> {
            &&& m.after_answer(Some(error), now).1.action is Erase
            &&& m.after_answer(Some(error), now).0.after_answer(None, later).0.state
                == ArbState::Idle
            &&& m.after_answer(Some(error), now).0.after_answer(None, later).0.cycle is None
            &&& m.after_answer(None, now).0.state == ArbState::EvmSwapping
        },
        m.pending == Pending::OrderSending || m.pending == Pending::CancelSending || m.pending
            == Pending::Erasing ==> {
            &&& m.after_answer(Some(error), now).0.state == ArbState::RecoveryRequired
            &&& m.pending != Pending::Erasing ==> {
                &&& m.after_answer(None, now).0.state == m.state
                &&& m.after_answer(None, now).0.cycle == m.cycle
                &&& m.after_answer(None, now).0.pending == Pending::Nothing
            }
        },
{
}

/// The terms of an engine are those of its pair and of the system, each under its own name.
pub proof fn law_terms_are_the_configured_ones(global: Config, pair: PairConfig, decimals: u8)
    ensures
        ({
            let terms: Terms = crate::actors::pricing::terms_of(global, pair, decimals);
            &&& terms.size == pair.order_size_token1
            &&& terms.limit_slippage == pair.limit_slippage
            &&& terms.ask_diff == pair.ask_diff_percent
            &&& terms.bid_diff == pair.bid_diff_percent
            &&& terms.enable_sell == pair.enable_sell_arb
            &&& terms.fee == global.liquid_fee_bps
            &&& terms.buffer == global.profit_buffer_bps
            &&& terms.gas == global.gas_cost_usdc
            &&& terms.size_decimals == decimals
        }),
{
}

/// A trade that begins is counted once under its direction and pair, after the comparison was
/// noted, and its duration counts from there.
pub proof fn law_beginnings_are_counted(m: Model, buy: TradePlan, sell: TradePlan, now: u64)
    requires
        m.chances(now) == Some((buy, sell)),
        !m.dry_run,
        buy.triggered() || sell.triggered(),
        buy.direction == ArbDirection::BuyDiff,
        sell.direction == ArbDirection::SellDiff,
    ensures
        ({
            let noted: Seq<EffectView> = m.after_quote(now).1.effects;
            &&& noted.len() == 8
            &&& noted[6] is Metric
            &&& noted[6]->Metric_0.metric == crate::metrics::Metric::ArbTriggerTotal
            &&& noted[6]->Metric_0.change == crate::metrics::Change::Increment
            &&& noted[6]->Metric_0.labels == seq![
                if buy.triggered() {
                    "buy_diff"@
                } else {
                    "sell_diff"@
                },
                m.symbol,
            ]
            &&& noted[7] is CycleStarted
        }),
{
}

/// A dry run counts each chance that would have been taken, under its direction and pair, and
/// changes nothing.
pub proof fn law_dry_runs_count_each_trigger(m: Model, buy: TradePlan, sell: TradePlan, now: u64)
    requires
        m.chances(now) == Some((buy, sell)),
        m.dry_run,
        buy.direction == ArbDirection::BuyDiff,
        sell.direction == ArbDirection::SellDiff,
    ensures
        ({
            let noted: Seq<EffectView> = m.after_quote(now).1.effects;
            let first: int = if buy.triggered() {
                1
            } else {
                0
            };
            let second: int = if sell.triggered() {
                1
            } else {
                0
            };
            &&& m.after_quote(now).0 == m
            &&& noted.len() == 6 + first + second
            &&& buy.triggered() ==> dry_trigger(noted[6], "buy_diff"@, m.symbol)
            &&& sell.triggered() ==> dry_trigger(noted[6 + first], "sell_diff"@, m.symbol)
        }),
{
}

/// Whether an effect counts one trigger of a dry run.
pub open spec fn dry_trigger(effect: EffectView, direction: Seq<char>, symbol: Seq<char>) -> bool {
    &&& effect is Metric
    &&& effect->Metric_0.metric == crate::metrics::Metric::ArbDryRunTriggerTotal
    &&& effect->Metric_0.labels == seq![direction, symbol]
    &&& effect->Metric_0.change == crate::metrics::Change::Increment
}

/// Chances that do not trigger are noted and begin nothing; prices that cannot be judged, and data
/// that come while an answer is outstanding, are not even noted.
pub proof fn law_nothing_begins_without_a_trigger(
    m: Model,
    evm: EvmPrice,
    book: OrderBook,
    now: u64,
)
    requires
        m.evm == Some(evm),
        m.book == Some(book),
    ensures
        ({
            let judged: Result<(TradePlan, TradePlan), crate::actors::pricing::EvaluationError> =
                crate::actors::pricing::opportunities(
                m.terms,
                Quotes {
                    evm_buy: evm.buy_price,
                    evm_sell: evm.sell_price,
                    buy_dex: evm.buy_dex,
                    sell_dex: evm.sell_dex,
                    bid: book.bid,
                    ask: book.ask,
                },
            );
            &&& judged is Err || m.pending != Pending::Nothing ==> m.after_quote(now) == (
                m,
                crate::actors::arb_engine::model::quiet(),
            )
            &&& judged is Ok && !judged->Ok_0.0.triggered() && !judged->Ok_0.1.triggered() ==> {
                &&& m.after_quote(now).0 == m
                &&& m.after_quote(now).1.action is Wait
            }
        }),
{
}

/// Every record is stored with its reason, in which the addresses of the nodes are redacted.
pub proof fn law_recorded_reasons_are_redacted(
    m: Model,
    stage: Seq<char>,
    reason: Seq<char>,
    hash: Option<Seq<char>>,
    oid: Option<u64>,
)
    ensures
        m.recorded(stage, reason, hash, oid).reason == crate::config::redaction::redacted(
            reason,
            m.https_rpc,
            m.wss_rpc,
        ),
{
}

/// A swap that failed or whose outcome is unknown, an order that failed for good and one that was
/// cancelled stop the pair; what is recorded of the first three is the trader's own reason.
pub proof fn law_failures_are_recorded_with_their_reason(
    m: Model,
    reason: Seq<char>,
    now: u64,
)
    requires
        m.cycle is Some,
    ensures
        ({
            let failed: (Model, StepView) = m.after_result(
                crate::types::commands::TradeResultView::EvmSwapFailed { reason },
                now,
            );
            let unknown: (Model, StepView) = m.after_result(
                crate::types::commands::TradeResultView::EvmSwapUnknown { reason },
                now,
            );
            let lost: (Model, StepView) = m.after_result(
                crate::types::commands::TradeResultView::LiquidFailed { reason, retriable: false },
                now,
            );
            let shown: Seq<char> = crate::config::redaction::redacted(
                reason,
                m.https_rpc,
                m.wss_rpc,
            );
            &&& m.state == ArbState::EvmSwapping ==> {
                &&& failed.1.action is Save && failed.1.action->Save_0.reason == shown
                &&& unknown.1.action is Save && unknown.1.action->Save_0.reason == shown
                &&& failed.0.state == ArbState::RecoveryRequired
                &&& unknown.0.state == ArbState::RecoveryRequired
            }
            &&& m.state == ArbState::LiquidOrdering ==> {
                &&& lost.1.action is Save && lost.1.action->Save_0.reason == shown
                &&& lost.0.state == ArbState::RecoveryRequired
            }
        }),
{
}

/// Answers of the one trader are not taken for answers of the other: while a swap is out nothing
/// that the order trader says counts, and the other way round.
pub proof fn law_answers_of_the_other_trader_are_ignored(
    m: Model,
    result: crate::types::commands::TradeResultView,
    now: u64,
)
    requires
        m.state == ArbState::EvmSwapping ==> result is LiquidFilled || result is LiquidResting
            || result is LiquidCancelled || result is LiquidFailed,
        m.state == ArbState::LiquidOrdering ==> !(result is LiquidFilled) && !(result
            is LiquidResting) && !(result is LiquidCancelled) && !(result is LiquidFailed),
    ensures
        m.after_result(result, now) == (m, crate::actors::arb_engine::model::quiet()),
{
}

} // verus!
