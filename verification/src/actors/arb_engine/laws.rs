//! What holds of an engine whatever happens to it.
use vstd::prelude::*;

use crate::actors::arb_engine::steps::{
    ActionView, ArbState, EngineEvent, InFlightCycle, OrderContext, Pending, StepView,
};
use crate::actors::pricing::{ArbDirection, TradePlan};
use crate::double::Double;
use crate::types::commands::{EvmSwapRequest, LiquidCommand};
use crate::types::market::{EvmPrice, OrderBook};

verus! {

/// Whether a later record still has a transaction hash and an order number where an earlier one
/// had them.
pub open spec fn keeps_identifiers(
    earlier: crate::db::RecordView,
    later: crate::db::RecordView,
) -> bool {
    &&& earlier.evm_tx_hash is Some ==> later.evm_tx_hash is Some
    &&& earlier.liquid_oid is Some ==> later.liquid_oid is Some
}

impl crate::actors::arb_engine::model::Model {
    /// What fits together in an engine: its state, the trade in progress and what it waits for.
    pub open spec fn sound(self) -> bool {
        &&& match self.pending {
            Pending::Nothing => match (self.state, self.cycle) {
                (ArbState::Idle, cycle) => cycle is None && self.record is None,
                (ArbState::RecoveryRequired, cycle) => cycle is None,
                (ArbState::EvmSwapping, Some(cycle)) => cycle == InFlightCycle::fresh(cycle.dir),
                (ArbState::LiquidOrdering, Some(cycle)) => cycle.expected_liquid_size is Some,
                _ => false,
            },
            Pending::RecordBeforeSwap(_) => {
                &&& self.state == ArbState::Idle
                &&& self.new_cycle()
                &&& self.record is None
            },
            Pending::SwapSending => {
                &&& self.state == ArbState::Idle
                &&& self.new_cycle()
                &&& self.record is Some
            },
            Pending::RecordConfirmation(context) => {
                &&& self.state == ArbState::EvmSwapping
                &&& match self.cycle {
                    Some(cycle) => !cycle.liquid_retry_used && (cycle.evm_amount_out is Some) == (
                    context == OrderContext::EvmSwapSuccess),
                    None => false,
                }
                &&& context != OrderContext::LiquidRetry
            },
            Pending::RecordBeforeOrder { .. } => match self.cycle {
                Some(cycle) => if cycle.liquid_retry_used {
                    self.state == ArbState::LiquidOrdering
                } else {
                    self.state == ArbState::EvmSwapping
                },
                None => false,
            },
            Pending::OrderSending => self.ordered(),
            Pending::RecordFill { .. } => self.ordered(),
            Pending::RecordResting { .. } => self.ordered(),
            Pending::CancelSending => self.ordered(),
            Pending::Erasing => self.cycle is Some && self.state != ArbState::RecoveryRequired,
            Pending::RecordRecovery => self.state == ArbState::RecoveryRequired && self.cycle
                is None,
        }
        &&& self.dry_run ==> {
            &&& self.state == ArbState::Idle || self.state == ArbState::RecoveryRequired
            &&& self.pending == Pending::Nothing || self.pending == Pending::RecordRecovery
        }
        &&& match self.pending {
            Pending::RecordBeforeSwap(_) => self.unsaved is Some,
            Pending::RecordConfirmation(_) => self.unsaved is Some,
            Pending::RecordBeforeOrder { .. } => self.unsaved is Some,
            Pending::RecordFill { .. } => self.unsaved is Some,
            Pending::RecordResting { .. } => self.unsaved is Some,
            Pending::RecordRecovery => self.unsaved is Some,
            _ => self.unsaved is None,
        }
        &&& match (self.record, self.unsaved) {
            (Some(record), Some(next)) => keeps_identifiers(record, next),
            _ => true,
        }
    }

    /// A trade has just begun.
    pub open spec fn new_cycle(self) -> bool {
        match self.cycle {
            Some(cycle) => cycle == InFlightCycle::fresh(cycle.dir),
            None => false,
        }
    }

    /// An order has been placed and not settled.
    pub open spec fn ordered(self) -> bool {
        &&& self.state == ArbState::LiquidOrdering
        &&& match self.cycle {
            Some(cycle) => cycle.expected_liquid_size is Some,
            None => false,
        }
    }
}

/// A new engine is sound.
pub proof fn law_new_engine_is_sound(m: crate::actors::arb_engine::model::Model)
    requires
        m.state == ArbState::Idle,
        m.cycle is None,
        m.record is None,
        m.unsaved is None,
        m.pending == Pending::Nothing,
    ensures
        m.sound(),
{
}

/// New market data keep the engine sound.
pub proof fn law_quotes_keep_the_engine_sound(
    m: crate::actors::arb_engine::model::Model,
    now: u64,
)
    requires
        m.sound(),
    ensures
        m.after_quote(now).0.sound(),
{
}

/// Whatever comes in keeps the engine sound.
pub proof fn law_events_keep_the_engine_sound(
    m: crate::actors::arb_engine::model::Model,
    event: EngineEvent,
)
    requires
        m.sound(),
    ensures
        m.after_event(event).0.sound(),
{
}

/// Once the engine is to stop it ends rather than begin a trade: while it has not ended, new
/// market data change nothing.
pub proof fn law_stopping_engines_begin_nothing(
    m: crate::actors::arb_engine::model::Model,
    now: u64,
)
    requires
        m.stopping,
        !m.done(),
    ensures
        m.after_quote(now) == (m, crate::actors::arb_engine::model::quiet()),
{
}

/// An engine never ends in the middle of a trade.
pub proof fn law_engines_end_between_trades(m: crate::actors::arb_engine::model::Model)
    requires
        m.sound(),
        m.done(),
    ensures
        m.cycle is None,
{
}

/// Data of other pairs are left alone.
pub proof fn law_other_pairs_are_left_alone(
    m: crate::actors::arb_engine::model::Model,
    price: EvmPrice,
    book: OrderBook,
)
    requires
        price.pair_id@ != m.symbol,
        book.symbol@ != m.symbol,
    ensures
        m.after_event(EngineEvent::Price(price)).0 == m,
        m.after_event(EngineEvent::Book(book)).0 == m,
{
}

/// Answers of the traders keep the engine sound.
pub proof fn law_results_keep_the_engine_sound(
    m: crate::actors::arb_engine::model::Model,
    result: crate::types::commands::TradeResultView,
    now: u64,
)
    requires
        m.sound(),
        m.settled(),
    ensures
        m.after_result(result, now).0.sound(),
{
}

/// Answers to requests keep the engine sound.
pub proof fn law_answers_keep_the_engine_sound(
    m: crate::actors::arb_engine::model::Model,
    failure: Option<Seq<char>>,
    now: u64,
)
    requires
        m.sound(),
    ensures
        m.after_answer(failure, now).0.sound(),
{
}

/// Losing the traders keeps the engine sound.
pub proof fn law_lost_results_keep_the_engine_sound(
    m: crate::actors::arb_engine::model::Model,
    reason: Seq<char>,
)
    requires
        m.sound(),
    ensures
        m.recovery(reason).0.sound(),
{
}

/// Between events a trade is in progress exactly while a swap or an order is out.
pub proof fn law_cycle_exactly_while_in_flight(m: crate::actors::arb_engine::model::Model)
    requires
        m.sound(),
        m.settled(),
    ensures
        m.cycle is Some <==> m.state == ArbState::EvmSwapping || m.state
            == ArbState::LiquidOrdering,
{
}

/// Whether a step sends anything to a trader.
pub open spec fn sends(step: StepView) -> bool {
    step.action is Swap || step.action is Order
}

/// Once a pair needs people it stays so, and nothing is sent for it any more.
pub proof fn law_recovery_is_final(
    m: crate::actors::arb_engine::model::Model,
    result: crate::types::commands::TradeResultView,
    failure: Option<Seq<char>>,
    reason: Seq<char>,
    now: u64,
)
    requires
        m.sound(),
        m.state == ArbState::RecoveryRequired,
    ensures
        m.after_quote(now).0.state == ArbState::RecoveryRequired,
        !sends(m.after_quote(now).1),
        m.after_result(result, now).0.state == ArbState::RecoveryRequired,
        !sends(m.after_result(result, now).1),
        m.after_answer(failure, now).0.state == ArbState::RecoveryRequired,
        !sends(m.after_answer(failure, now).1),
        m.recovery(reason).0.state == ArbState::RecoveryRequired,
        !sends(m.recovery(reason).1),
{
}

/// A dry run sends nothing, whatever happens.
pub proof fn law_dry_run_sends_nothing(
    m: crate::actors::arb_engine::model::Model,
    result: crate::types::commands::TradeResultView,
    failure: Option<Seq<char>>,
    reason: Seq<char>,
    now: u64,
)
    requires
        m.sound(),
        m.dry_run,
    ensures
        m.after_quote(now).1.action is Wait,
        !sends(m.after_result(result, now).1),
        !sends(m.after_answer(failure, now).1),
        !sends(m.recovery(reason).1),
{
}

/// A trade begins only where the pair is idle, trading is live, the data of both markets are
/// fresh and belong together, and the chance triggers; what is then prepared is that chance.
pub proof fn law_trades_begin_only_on_triggers(
    m: crate::actors::arb_engine::model::Model,
    now: u64,
    request: EvmSwapRequest,
)
    requires
        m.settled(),
        m.after_quote(now).0.pending == Pending::RecordBeforeSwap(request),
    ensures
        m.state == ArbState::Idle,
        !m.dry_run,
        m.evm is Some,
        m.book is Some,
        crate::actors::pricing::both_fresh(
            m.evm->Some_0.received_at,
            m.book->Some_0.received_at,
            now,
            crate::actors::arb_engine::model::MAX_MARKET_AGE_MS,
            crate::actors::arb_engine::model::MAX_MARKET_SKEW_MS,
        ),
        ({
            let plans: Result<
                (TradePlan, TradePlan),
                crate::actors::pricing::EvaluationError,
            > = crate::actors::pricing::opportunities(
                m.terms,
                crate::actors::pricing::quotes_of(m.evm->Some_0, m.book->Some_0),
            );
            &&& plans is Ok
            &&& ({
                let plan: TradePlan = if request.is_buy {
                    plans->Ok_0.1
                } else {
                    plans->Ok_0.0
                };
                &&& plan.triggered()
                &&& request.amount_in == plan.amount_in
                &&& request.target_amount == plan.target_amount
                &&& request.dex == plan.dex
            })
        }),
{
    reveal(crate::actors::pricing::opportunities);
}

/// Neither market data nor a trader's answer sends a swap at once: a swap is sent only in answer
/// to its record having been stored, and then that record is the one on file.
pub proof fn law_swaps_are_recorded_first(
    m: crate::actors::arb_engine::model::Model,
    result: crate::types::commands::TradeResultView,
    failure: Option<Seq<char>>,
    now: u64,
)
    requires
        m.sound(),
    ensures
        !(m.after_quote(now).1.action is Swap),
        !(m.after_result(result, now).1.action is Swap),
        m.after_answer(failure, now).1.action is Swap ==> {
            &&& failure is None
            &&& m.pending == Pending::RecordBeforeSwap(
                m.after_answer(failure, now).1.action->Swap_0,
            )
            &&& m.after_answer(failure, now).0.record == m.unsaved
            &&& m.unsaved is Some
        },
{
}

/// What begins a trade is recorded as waiting for the swap, under the trade's direction.
pub proof fn law_first_record_names_the_trade(
    m: crate::actors::arb_engine::model::Model,
    now: u64,
    request: EvmSwapRequest,
)
    requires
        m.settled(),
        m.after_quote(now).0.pending == Pending::RecordBeforeSwap(request),
    ensures
        ({
            let (next, step): (crate::actors::arb_engine::model::Model, StepView) = m.after_quote(
                now,
            );
            let direction: ArbDirection = if request.is_buy {
                ArbDirection::SellDiff
            } else {
                ArbDirection::BuyDiff
            };
            &&& next.unsaved is Some
            &&& step.action == ActionView::Save(next.unsaved->Some_0)
            &&& next.unsaved->Some_0.stage == "evm_pending"@
            &&& next.unsaved->Some_0.pair == m.symbol
            &&& next.unsaved->Some_0.direction == direction.name()
        }),
{
}

/// The first record of a trade names no transaction and no order of an earlier one.
pub proof fn law_first_record_is_clean(
    m: crate::actors::arb_engine::model::Model,
    now: u64,
    request: EvmSwapRequest,
)
    requires
        m.sound(),
        m.settled(),
        m.after_quote(now).0.pending == Pending::RecordBeforeSwap(request),
    ensures
        ({
            let record: Option<crate::db::RecordView> = m.after_quote(now).0.unsaved;
            record is Some && record->Some_0.evm_tx_hash is None && record->Some_0.liquid_oid
                is None
        }),
{
}

/// If the first record cannot be stored, nothing is sent and the pair stops.
pub proof fn law_unrecorded_trades_are_not_sent(
    m: crate::actors::arb_engine::model::Model,
    request: EvmSwapRequest,
    error: Seq<char>,
    now: u64,
)
    requires
        m.pending == Pending::RecordBeforeSwap(request),
    ensures
        m.after_answer(Some(error), now).0.state == ArbState::RecoveryRequired,
        !sends(m.after_answer(Some(error), now).1),
{
}

/// An order is prepared only on a fresh book, for the right size: the configured one where token1
/// was sold on chain, exactly what came out where it was bought; and at the worst price that the
/// book gives.
pub proof fn law_hedges_match_the_first_leg(
    m: crate::actors::arb_engine::model::Model,
    context: OrderContext,
    now: u64,
    is_buy: bool,
    price: Double,
    size: Double,
)
    requires
        m.ordering(context, now).0.pending == (Pending::RecordBeforeOrder {
            is_buy,
            price,
            size,
        }),
    ensures
        m.cycle is Some,
        m.book is Some,
        crate::actors::pricing::fresh(
            m.book->Some_0.received_at,
            now,
            crate::actors::arb_engine::model::MAX_MARKET_AGE_MS,
        ),
        is_buy == (m.cycle->Some_0.dir == ArbDirection::BuyDiff),
        m.cycle->Some_0.dir == ArbDirection::SellDiff ==> m.cycle->Some_0.evm_amount_out is Some,
        ({
            let cycle: InFlightCycle = m.cycle->Some_0;
            let wanted: Double = match cycle.dir {
                ArbDirection::BuyDiff => m.terms.size,
                ArbDirection::SellDiff => cycle.evm_amount_out->Some_0,
            };
            crate::actors::pricing::hedge_order(
                cycle.dir,
                m.book->Some_0.bid,
                m.book->Some_0.ask,
                m.terms.limit_slippage,
                wanted,
                m.terms.size_decimals,
            ) == Ok::<
                crate::liquid::client::NormalizedSpotOrder,
                crate::actors::pricing::PricingError,
            >(crate::liquid::client::NormalizedSpotOrder { price, size })
        }),
{
}

/// Where token1 was bought on chain but how much is not known, no order is guessed at: the pair
/// stops.
pub proof fn law_unknown_amounts_are_not_hedged_by_guess(
    m: crate::actors::arb_engine::model::Model,
    context: OrderContext,
    now: u64,
)
    requires
        m.cycle is Some,
        m.cycle->Some_0.dir == ArbDirection::SellDiff,
        m.cycle->Some_0.evm_amount_out is None,
    ensures
        m.ordering(context, now).0.state == ArbState::RecoveryRequired,
{
}

/// An order is sent only in answer to its record, with just the price and size that were
/// recorded as expected.
pub proof fn law_orders_are_the_prepared_ones(
    m: crate::actors::arb_engine::model::Model,
    failure: Option<Seq<char>>,
    now: u64,
    is_buy: bool,
    price: Double,
    size: Double,
)
    requires
        m.sound(),
        m.after_answer(failure, now).1.action == ActionView::Order(
            LiquidCommand::Order { is_buy, price, size },
        ),
    ensures
        m.pending == (Pending::RecordBeforeOrder { is_buy, price, size }),
        m.after_answer(failure, now).0.cycle is Some,
        m.after_answer(failure, now).0.cycle->Some_0.expected_liquid_size == Some(size),
{
}

/// A refused order is placed again at most once: once that is used up, or where the order may be
/// on the book, a failure stops the pair.
pub proof fn law_at_most_one_retry(
    m: crate::actors::arb_engine::model::Model,
    reason: Seq<char>,
    retriable: bool,
    now: u64,
)
    requires
        m.state == ArbState::LiquidOrdering,
        m.cycle is Some,
    ensures
        ({
            let (next, step): (crate::actors::arb_engine::model::Model, StepView) = m.after_result(
                crate::types::commands::TradeResultView::LiquidFailed { reason, retriable },
                now,
            );
            &&& !retriable || m.cycle->Some_0.liquid_retry_used ==> next.state
                == ArbState::RecoveryRequired
            &&& next.cycle is Some ==> next.cycle->Some_0.liquid_retry_used
        }),
{
}

/// Within a trade the use of the retry is never forgotten, nor is its direction.
pub proof fn law_retry_is_never_forgotten(
    m: crate::actors::arb_engine::model::Model,
    result: crate::types::commands::TradeResultView,
    failure: Option<Seq<char>>,
    now: u64,
)
    requires
        m.sound(),
        m.cycle is Some,
    ensures
        ({
            let cycle: Option<InFlightCycle> = m.after_result(result, now).0.cycle;
            cycle is Some ==> {
                &&& m.cycle->Some_0.liquid_retry_used ==> cycle->Some_0.liquid_retry_used
                &&& cycle->Some_0.dir == m.cycle->Some_0.dir
            }
        }),
        ({
            let cycle: Option<InFlightCycle> = m.after_answer(failure, now).0.cycle;
            cycle is Some ==> {
                &&& m.cycle->Some_0.liquid_retry_used ==> cycle->Some_0.liquid_retry_used
                &&& cycle->Some_0.dir == m.cycle->Some_0.dir
            }
        }),
        m.after_quote(now).0.cycle == m.cycle,
{
}

/// A trade is finished only by a complete fill; any other fill stops the pair.
pub proof fn law_partial_fills_stop_the_pair(
    m: crate::actors::arb_engine::model::Model,
    total_size: Double,
    failure: Option<Seq<char>>,
    now: u64,
)
    requires
        m.sound(),
        m.pending == (Pending::RecordFill { total_size }),
    ensures
        ({
            let (next, step): (crate::actors::arb_engine::model::Model, StepView) = m.after_answer(
                failure,
                now,
            );
            let expected: Double = m.cycle->Some_0.expected_liquid_size->Some_0;
            if crate::actors::pricing::complete_fill(expected, total_size) {
                next.pending == Pending::Erasing && step.action is Erase
            } else {
                next.state == ArbState::RecoveryRequired
            }
        }),
{
}

/// The transaction hash that a result brings.
pub open spec fn brought_hash(result: crate::types::commands::TradeResultView) -> Option<Seq<char>> {
    match result {
        crate::types::commands::TradeResultView::EvmSwapSuccess { tx_hash, .. } => Some(tx_hash),
        crate::types::commands::TradeResultView::EvmSwapConfirmedAmountUnknown { tx_hash } => Some(
            tx_hash,
        ),
        _ => None,
    }
}

/// The order number that a result brings.
pub open spec fn brought_oid(result: crate::types::commands::TradeResultView) -> Option<u64> {
    match result {
        crate::types::commands::TradeResultView::LiquidFilled { oid, .. } => Some(oid),
        crate::types::commands::TradeResultView::LiquidResting { oid } => Some(oid),
        _ => None,
    }
}

/// The newer one where there is one, else the earlier one.
pub open spec fn newer_or<T>(newer: Option<T>, earlier: Option<T>) -> Option<T> {
    match newer {
        Some(value) => Some(value),
        None => earlier,
    }
}

/// A record with the identifiers that an earlier one had, or with newer ones.
pub open spec fn continues(
    record: crate::db::RecordView,
    earlier: Option<crate::db::RecordView>,
    hash: Option<Seq<char>>,
    oid: Option<u64>,
) -> bool {
    &&& record.evm_tx_hash == newer_or(
        hash,
        match earlier {
            Some(before) => before.evm_tx_hash,
            None => None,
        },
    )
    &&& record.liquid_oid == newer_or(
        oid,
        match earlier {
            Some(before) => before.liquid_oid,
            None => None,
        },
    )
}

/// Recording a stage stores the stage, the direction of the trade, and the given transaction hash
/// and order number, or else those on record; where storing fails, what was on record stays. The
/// state and the trade are the same either way.
pub proof fn law_stages_are_recorded_or_nothing_changes(
    m: crate::actors::arb_engine::model::Model,
    stage: Seq<char>,
    reason: Seq<char>,
    hash: Option<Seq<char>>,
    oid: Option<u64>,
    then: Pending,
)
    ensures
        ({
            let record: crate::db::RecordView = m.recorded(stage, reason, hash, oid);
            let (asked, step): (crate::actors::arb_engine::model::Model, StepView) = m.saving(
                record,
                then,
            );
            let done: crate::actors::arb_engine::model::Model = asked.stored(true);
            let failed: crate::actors::arb_engine::model::Model = asked.stored(false);
            &&& step.action == ActionView::Save(record)
            &&& record.pair == m.symbol
            &&& record.stage == stage
            &&& record.direction == match m.cycle {
                Some(cycle) => cycle.dir.name(),
                None => "unknown"@,
            }
            &&& continues(record, m.record, hash, oid)
            &&& done.record == Some(record)
            &&& failed.record == m.record
            &&& asked.state == m.state && done.state == m.state && failed.state == m.state
            &&& asked.cycle == m.cycle && done.cycle == m.cycle && failed.cycle == m.cycle
        }),
{
}

/// A transaction hash and an order number that are on record appear unchanged in every later
/// record of the trade, except that one which a result brings takes the place of the earlier one.
pub proof fn law_records_keep_what_identifies_the_trade(
    m: crate::actors::arb_engine::model::Model,
    result: crate::types::commands::TradeResultView,
    failure: Option<Seq<char>>,
    reason: Seq<char>,
    now: u64,
)
    requires
        m.sound(),
    ensures
        ({
            let saved: ActionView = m.after_result(result, now).1.action;
            saved is Save ==> continues(
                saved->Save_0,
                m.record,
                brought_hash(result),
                brought_oid(result),
            )
        }),
        ({
            let saved: ActionView = m.after_answer(failure, now).1.action;
            let earlier: Option<crate::db::RecordView> = if failure is None && m.unsaved is Some {
                m.unsaved
            } else {
                m.record
            };
            saved is Save ==> continues(saved->Save_0, earlier, None, None)
        }),
        ({
            let saved: ActionView = m.recovery(reason).1.action;
            saved is Save && continues(saved->Save_0, m.record, None, None)
        }),
{
}

/// A swap that was given up before anything was sent leaves the pair as before the trade, once
/// its record is erased.
pub proof fn law_aborted_swaps_leave_no_trace(
    m: crate::actors::arb_engine::model::Model,
    reason: Seq<char>,
    now: u64,
)
    requires
        m.sound(),
        m.settled(),
        m.state == ArbState::EvmSwapping,
    ensures
        ({
            let (erasing, step): (crate::actors::arb_engine::model::Model, StepView) =
                m.after_result(
                crate::types::commands::TradeResultView::EvmSwapAborted { reason },
                now,
            );
            let done: crate::actors::arb_engine::model::Model = erasing.after_answer(
                None,
                now,
            ).0;
            &&& step.action is Erase
            &&& done == (crate::actors::arb_engine::model::Model {
                state: ArbState::Idle,
                cycle: None,
                record: None,
                pending: Pending::Nothing,
                ..m
            })
        }),
{
}

/// A swap that failed after it was sent, or whose outcome is not known, stops the pair.
pub proof fn law_doubtful_swaps_stop_the_pair(
    m: crate::actors::arb_engine::model::Model,
    reason: Seq<char>,
    now: u64,
)
    requires
        m.state == ArbState::EvmSwapping,
    ensures
        m.after_result(
            crate::types::commands::TradeResultView::EvmSwapFailed { reason },
            now,
        ).0.state == ArbState::RecoveryRequired,
        m.after_result(
            crate::types::commands::TradeResultView::EvmSwapUnknown { reason },
            now,
        ).0.state == ArbState::RecoveryRequired,
{
}

/// In an idle pair a trader's answer, which can only be a late one, changes nothing.
pub proof fn law_late_results_are_ignored(
    m: crate::actors::arb_engine::model::Model,
    result: crate::types::commands::TradeResultView,
    now: u64,
)
    requires
        m.state == ArbState::Idle || m.state == ArbState::RecoveryRequired,
    ensures
        m.after_result(result, now) == (m, crate::actors::arb_engine::model::quiet()),
{
}

} // verus!
