//! Swaps: how they are made and what is reported of them.
use vstd::prelude::*;

use crate::actors::evm_trader::run::SwapEnd;
use crate::actors::liquid_trader::Answer;
use crate::actors::pricing::ArbDirection;
use crate::metrics::{
    record_evm_swap_aborted, record_evm_swap_failed, record_evm_swap_success,
    record_evm_swap_unknown, record_requote_aborted, MetricUpdate,
};
use crate::types::commands::{EvmSwapRequest, TradeResult};

pub mod guard;
pub mod laws;
pub mod run;
pub mod slippage;

pub use crate::actors::evm_trader::guard::{guarded_amount_out_min, select_best_executable_quote};

verus! {

/// A swap that takes longer than this is given up on, in seconds.
pub const EXECUTION_TIMEOUT_SECS: u64 = 90;

/// The direction of the trade that a swap belongs to.
pub open spec fn direction_of(request: EvmSwapRequest) -> ArbDirection {
    if request.is_buy {
        ArbDirection::SellDiff
    } else {
        ArbDirection::BuyDiff
    }
}

/// One more swap with the given result.
pub open spec fn swap_counted(symbol: Seq<char>, result: Seq<char>) -> crate::metrics::MetricUpdateView {
    crate::metrics::by_two(
        crate::metrics::Metric::EvmSwapTotal,
        result,
        symbol,
        crate::metrics::Change::Increment,
    )
}

/// What is reported of a swap. One that was given up before sending is `aborted`, for whatever
/// reason; `failed` is one that was sent and did not succeed.
pub open spec fn swap_answer(
    symbol: Seq<char>,
    request: EvmSwapRequest,
    end: crate::actors::evm_trader::run::SwapEndView,
) -> crate::actors::liquid_trader::AnswerView {
    match end {
        crate::actors::evm_trader::run::SwapEndView::Brought { amount_out, tx_hash } => {
            crate::actors::liquid_trader::AnswerView {
                result: crate::types::commands::TradeResultView::EvmSwapSuccess {
                    amount_out,
                    tx_hash,
                },
                updates: seq![
                    swap_counted(symbol, "success"@),
                    crate::metrics::by_two(
                        crate::metrics::Metric::EvmSwapAmountOutTotal,
                        direction_of(request).name(),
                        symbol,
                        crate::metrics::Change::IncrementBy(amount_out),
                    ),
                ],
            }
        },
        crate::actors::evm_trader::run::SwapEndView::AmountUnknown { tx_hash } => {
            crate::actors::liquid_trader::AnswerView {
                result: crate::types::commands::TradeResultView::EvmSwapConfirmedAmountUnknown {
                    tx_hash,
                },
                updates: seq![swap_counted(symbol, "unknown"@)],
            }
        },
        crate::actors::evm_trader::run::SwapEndView::Aborted(abort) => {
            crate::actors::liquid_trader::AnswerView {
                result: crate::types::commands::TradeResultView::EvmSwapAborted {
                    reason: abort.text(),
                },
                updates: if abort.price_deteriorated() {
                    seq![
                        crate::metrics::by_one(
                            crate::metrics::Metric::RequoteAbortedTotal,
                            symbol,
                            crate::metrics::Change::Increment,
                        ),
                        swap_counted(symbol, "aborted"@),
                    ]
                } else {
                    seq![swap_counted(symbol, "aborted"@)]
                },
            }
        },
        crate::actors::evm_trader::run::SwapEndView::Failed { reason } => {
            crate::actors::liquid_trader::AnswerView {
                result: crate::types::commands::TradeResultView::EvmSwapFailed { reason },
                updates: seq![swap_counted(symbol, "failed"@)],
            }
        },
    }
}

/// Reports a swap that has ended.
pub fn map_swap_result(symbol: &str, request: &EvmSwapRequest, end: SwapEnd) -> (answer: Answer)
    ensures
        answer@ == swap_answer(symbol@, *request, end@),
{
    let direction: ArbDirection = if request.is_buy {
        ArbDirection::SellDiff
    } else {
        ArbDirection::BuyDiff
    };
    let mut updates: Vec<MetricUpdate> = Vec::new();
    let ghost before: crate::actors::evm_trader::run::SwapEndView = end@;
    let result: TradeResult = match end {
        SwapEnd::Brought { amount_out, tx_hash } => {
            updates = record_evm_swap_success(symbol, direction.label(), amount_out);
            TradeResult::EvmSwapSuccess { amount_out, tx_hash }
        },
        SwapEnd::AmountUnknown { tx_hash } => {
            updates.push(record_evm_swap_unknown(symbol));
            TradeResult::EvmSwapConfirmedAmountUnknown { tx_hash }
        },
        SwapEnd::Aborted(abort) => {
            if abort.is_price_deterioration() {
                updates.push(record_requote_aborted(symbol));
            }
            updates.push(record_evm_swap_aborted(symbol));
            TradeResult::EvmSwapAborted { reason: abort.message() }
        },
        SwapEnd::Failed { reason } => {
            updates.push(record_evm_swap_failed(symbol));
            TradeResult::EvmSwapFailed { reason }
        },
    };
    let answer: Answer = Answer { result, updates };
    assert(answer@.updates =~= swap_answer(symbol@, *request, before).updates);
    answer
}

/// Reports a swap that took too long: it may or may not have been sent.
pub fn answer_swap_timeout(symbol: &str) -> (answer: Answer)
    ensures
        answer@ == (crate::actors::liquid_trader::AnswerView {
            result: crate::types::commands::TradeResultView::EvmSwapUnknown {
                reason: "EVM 交易执行超时"@,
            },
            updates: seq![swap_counted(symbol@, "unknown"@)],
        }),
{
    let mut updates: Vec<MetricUpdate> = Vec::new();
    updates.push(record_evm_swap_unknown(symbol));
    let answer: Answer = Answer {
        result: TradeResult::EvmSwapUnknown { reason: "EVM 交易执行超时".to_owned() },
        updates,
    };
    assert(answer@.updates =~= seq![swap_counted(symbol@, "unknown"@)]);
    answer
}

} // verus!
