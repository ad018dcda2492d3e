//! Turning the exchange's answers into results.
use vstd::prelude::*;

use crate::double::Double;
use crate::liquid::replies::{ExchangeReply, OrderResult, OrderStatus, ReplyStatus};
use crate::metrics::{
    record_liquid_order_failed, record_liquid_order_filled, record_liquid_order_resting,
    MetricUpdate,
};
use crate::types::commands::TradeResult;

verus! {

/// A request that takes longer than this is given up on, in seconds.
pub const REQUEST_TIMEOUT_SECS: u64 = 15;

/// A result and what is measured of it.
#[derive(Debug, Clone)]
pub struct Answer {
    pub result: TradeResult,
    pub updates: Vec<MetricUpdate>,
}

/// What an [`Answer`] says.
#[verifier::ext_equal]
pub ghost struct AnswerView {
    pub result: crate::types::commands::TradeResultView,
    pub updates: Seq<crate::metrics::MetricUpdateView>,
}

impl View for Answer {
    type V = AnswerView;

    open spec fn view(&self) -> AnswerView {
        AnswerView {
            result: self.result@,
            updates: crate::metrics::updates_view(self.updates@),
        }
    }
}

/// An order that counts as failed.
pub open spec fn failed_order(symbol: Seq<char>, reason: Seq<char>, retriable: bool) -> AnswerView {
    AnswerView {
        result: crate::types::commands::TradeResultView::LiquidFailed { reason, retriable },
        updates: seq![
            crate::metrics::by_two(
                crate::metrics::Metric::LiquidOrderTotal,
                "failed"@,
                symbol,
                crate::metrics::Change::Increment,
            ),
        ],
    }
}

/// What an order came to. It may be tried again only where the exchange refused it.
pub open spec fn order_answer(symbol: Seq<char>, order: OrderResult) -> AnswerView {
    match (order.status, order.oid, order.avg_price, order.total_size) {
        (OrderStatus::Filled, Some(oid), Some(avg_price), Some(total_size)) => AnswerView {
            result: crate::types::commands::TradeResultView::LiquidFilled {
                oid,
                avg_price,
                total_size,
            },
            updates: seq![
                crate::metrics::by_two(
                    crate::metrics::Metric::LiquidOrderTotal,
                    "filled"@,
                    symbol,
                    crate::metrics::Change::Increment,
                ),
                crate::metrics::by_one(
                    crate::metrics::Metric::LiquidFilledSizeTotal,
                    symbol,
                    crate::metrics::Change::IncrementBy(total_size),
                ),
            ],
        },
        (OrderStatus::Filled, _, _, _) => failed_order(
            symbol,
            "filled response missing execution fields"@,
            false,
        ),
        (OrderStatus::Resting, Some(oid), _, _) => AnswerView {
            result: crate::types::commands::TradeResultView::LiquidResting { oid },
            updates: seq![
                crate::metrics::by_two(
                    crate::metrics::Metric::LiquidOrderTotal,
                    "resting"@,
                    symbol,
                    crate::metrics::Change::Increment,
                ),
            ],
        },
        (OrderStatus::Resting, None, _, _) => failed_order(
            symbol,
            "resting order missing oid"@,
            false,
        ),
        (OrderStatus::Rejected, _, _, _) => failed_order(symbol, "unknown status"@, true),
        _ => failed_order(symbol, "unknown status"@, false),
    }
}

fn fail_order(symbol: &str, reason: &str, retriable: bool) -> (answer: Answer)
    ensures
        answer@ == failed_order(symbol@, reason@, retriable),
{
    let mut updates: Vec<MetricUpdate> = Vec::new();
    updates.push(record_liquid_order_failed(symbol));
    let answer: Answer = Answer {
        result: TradeResult::LiquidFailed { reason: reason.to_owned(), retriable },
        updates,
    };
    assert(answer@ =~= failed_order(symbol@, reason@, retriable));
    answer
}

/// Answers an order that the exchange has answered.
pub fn answer_order(symbol: &str, order: &OrderResult) -> (answer: Answer)
    ensures
        answer@ == order_answer(symbol@, *order),
{
    match order.status {
        OrderStatus::Filled => match (order.oid, order.avg_price, order.total_size) {
            (Some(oid), Some(avg_price), Some(total_size)) => Answer {
                result: TradeResult::LiquidFilled { oid, avg_price, total_size },
                updates: record_liquid_order_filled(symbol, total_size),
            },
            _ => fail_order(symbol, "filled response missing execution fields", false),
        },
        OrderStatus::Resting => match order.oid {
            Some(oid) => {
                let mut updates: Vec<MetricUpdate> = Vec::new();
                updates.push(record_liquid_order_resting(symbol));
                let answer: Answer = Answer { result: TradeResult::LiquidResting { oid }, updates };
                assert(answer@ =~= order_answer(symbol@, *order));
                answer
            },
            None => fail_order(symbol, "resting order missing oid", false),
        },
        OrderStatus::Rejected => fail_order(symbol, "unknown status", true),
        _ => fail_order(symbol, "unknown status", false),
    }
}

/// Answers an order that could not be placed, or of which nothing was heard.
pub fn answer_order_error(symbol: &str, error: &str) -> (answer: Answer)
    ensures
        answer@ == failed_order(symbol@, error@, false),
{
    fail_order(symbol, error, false)
}

/// Answers a cancellation.
pub fn answer_cancel(oid: u64, outcome: Result<(), String>) -> (answer: Answer)
    ensures
        answer@ == (AnswerView {
            result: match outcome {
                Ok(()) => crate::types::commands::TradeResultView::LiquidCancelled { oid },
                Err(error) => crate::types::commands::TradeResultView::LiquidFailed {
                    reason: error@,
                    retriable: false,
                },
            },
            updates: Seq::empty(),
        }),
        answer@.result == cancel_answer(
            oid,
            match outcome {
                Ok(()) => None,
                Err(error) => Some(error@),
            },
        ),
{
    let result: TradeResult = match outcome {
        Ok(()) => TradeResult::LiquidCancelled { oid },
        Err(error) => TradeResult::LiquidFailed { reason: error, retriable: false },
    };
    let answer: Answer = Answer { result, updates: Vec::new() };
    assert(answer@.updates =~= Seq::empty());
    answer
}

/// Answers a request that took too long.
pub fn answer_timeout() -> (answer: Answer)
    ensures
        answer@ == (AnswerView {
            result: crate::types::commands::TradeResultView::LiquidFailed {
                reason: "HyperLiquid 请求超时"@,
                retriable: false,
            },
            updates: Seq::empty(),
        }),
{
    let answer: Answer = Answer {
        result: TradeResult::LiquidFailed {
            reason: "HyperLiquid 请求超时".to_owned(),
            retriable: false,
        },
        updates: Vec::new(),
    };
    assert(answer@.updates =~= Seq::empty());
    answer
}

/// A result says that an order may be tried again only where the exchange refused that order.
pub proof fn law_only_refused_orders_are_retriable(
    symbol: Seq<char>,
    order: OrderResult,
    reason: Seq<char>,
)
    requires
        order_answer(symbol, order).result == (
        crate::types::commands::TradeResultView::LiquidFailed { reason, retriable: true }),
    ensures
        order.status == OrderStatus::Rejected,
{
}

/// A filled order is reported as what it is: its number, its average price as the price and its
/// filled size as the size, which is also what is added to the filled size of the pair. Where one
/// of the three is missing, nothing is made up, and the order must not be tried again.
pub proof fn law_fills_are_reported_as_they_are(
    symbol: Seq<char>,
    oid: u64,
    avg_price: Double,
    total_size: Double,
    order: OrderResult,
)
    requires
        order.status == OrderStatus::Filled,
    ensures
        order.oid == Some(oid) && order.avg_price == Some(avg_price) && order.total_size == Some(
            total_size,
        ) ==> {
            let answer: AnswerView = order_answer(symbol, order);
            &&& answer.result is LiquidFilled
            &&& answer.result->LiquidFilled_oid == oid
            &&& answer.result->LiquidFilled_avg_price == avg_price
            &&& answer.result->LiquidFilled_total_size == total_size
            &&& answer.updates.len() == 2
            &&& answer.updates[0].metric == crate::metrics::Metric::LiquidOrderTotal
            &&& answer.updates[0].labels == seq!["filled"@, symbol]
            &&& answer.updates[1].metric == crate::metrics::Metric::LiquidFilledSizeTotal
            &&& answer.updates[1].labels == seq![symbol]
            &&& answer.updates[1].change == crate::metrics::Change::IncrementBy(total_size)
        },
        order.oid is None || order.avg_price is None || order.total_size is None ==> {
            let answer: AnswerView = order_answer(symbol, order);
            &&& answer.result is LiquidFailed
            &&& !answer.result->LiquidFailed_retriable
        },
{
}

/// What the engine hears of a fill is what the exchange wrote: the first status that settles the
/// order gives its number, and its two texts are read as the average price and the filled size.
pub proof fn law_fills_are_read_from_the_exchange(
    symbol: Seq<char>,
    statuses: Vec<ReplyStatus>,
    i: int,
    oid: u64,
    avg_px: String,
    total_sz: String,
    avg_price: Double,
    total_size: Double,
)
    requires
        0 <= i < statuses@.len(),
        statuses@[i] == (ReplyStatus::Filled { oid, avg_px, total_sz }),
        forall|j: int|
            0 <= j < i ==> !(#[trigger] statuses@[j] is Filled) && !(statuses@[j] is Resting) && !(
            statuses@[j] is Error),
        crate::decimal::read_double(avg_px@) == Some(avg_price),
        crate::decimal::read_double(total_sz@) == Some(total_size),
    ensures
        ({
            let order: OrderResult = crate::liquid::replies::order_outcome(
                ExchangeReply::Answered(Some(statuses)),
            );
            &&& order.status == OrderStatus::Filled
            &&& order.oid == Some(oid)
            &&& order.avg_price == Some(avg_price)
            &&& order.total_size == Some(total_size)
            &&& order_answer(symbol, order).result == (
            crate::types::commands::TradeResultView::LiquidFilled { oid, avg_price, total_size })
        }),
{
    crate::liquid::replies::lemma_settled_at(statuses@, i);
}

/// An order that rests is reported with its number, a refused one as one that may be tried again,
/// and one of which nothing is known as failed for good.
pub proof fn law_other_orders_are_reported_as_they_are(
    symbol: Seq<char>,
    order: OrderResult,
    error: Seq<char>,
)
    ensures
        order.status == OrderStatus::Resting && order.oid is Some ==> order_answer(
            symbol,
            order,
        ).result == (crate::types::commands::TradeResultView::LiquidResting {
            oid: order.oid->Some_0,
        }),
        order.status == OrderStatus::Rejected ==> {
            &&& order_answer(symbol, order).result is LiquidFailed
            &&& order_answer(symbol, order).result->LiquidFailed_retriable
        },
        order.status == OrderStatus::Failed || order.status == OrderStatus::Unknown || (order.status
            == OrderStatus::Resting && order.oid is None) ==> {
            &&& order_answer(symbol, order).result is LiquidFailed
            &&& !order_answer(symbol, order).result->LiquidFailed_retriable
        },
        failed_order(symbol, error, false).result == (
        crate::types::commands::TradeResultView::LiquidFailed { reason: error, retriable: false }),
{
}

/// What a cancellation came to: only one that the exchange confirmed counts as done.
pub open spec fn cancel_answer(
    oid: u64,
    failure: Option<Seq<char>>,
) -> crate::types::commands::TradeResultView {
    match failure {
        None => crate::types::commands::TradeResultView::LiquidCancelled { oid },
        Some(reason) => crate::types::commands::TradeResultView::LiquidFailed {
            reason,
            retriable: false,
        },
    }
}

/// A cancellation that failed is never taken as done, nor its order as one to try again.
pub proof fn law_failed_cancellations_are_final(oid: u64, failure: Option<Seq<char>>)
    ensures
        cancel_answer(oid, failure) is LiquidCancelled <==> failure is None,
        failure is None ==> cancel_answer(oid, failure)->LiquidCancelled_oid == oid,
        failure is Some ==> {
            &&& cancel_answer(oid, failure) is LiquidFailed
            &&& !cancel_answer(oid, failure)->LiquidFailed_retriable
            &&& cancel_answer(oid, failure)->LiquidFailed_reason == failure->Some_0
        },
{
}

} // verus!
