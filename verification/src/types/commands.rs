//! Commands to the traders and their answers.
use vstd::prelude::*;

use crate::double::Double;
use crate::types::market::DexName;

verus! {

/// The first leg: a swap on chain.
#[derive(Debug, Clone, Copy, PartialEq, Eq, Structural)]
pub struct EvmSwapRequest {
    /// `false` sells token1 for token0, `true` spends token0 on token1.
    pub is_buy: bool,
    pub amount_in: Double,
    /// The least output at which the trade pays.
    pub target_amount: Double,
    /// The exchange that quoted best; the route is chosen again before the swap.
    pub dex: DexName,
}

/// The second leg: an order on the order book.
#[derive(Debug, Clone, Copy, PartialEq, Eq, Structural)]
pub enum LiquidCommand {
    Order { is_buy: bool, price: Double, size: Double },
    Cancel { oid: u64 },
}

/// What became of a command.
#[derive(Debug, Clone)]
pub enum TradeResult {
    EvmSwapSuccess { amount_out: Double, tx_hash: String },
    /// Given up before any transaction was sent: nothing moved on chain.
    EvmSwapAborted { reason: String },
    /// The swap succeeded on chain, but how much came out is not known.
    EvmSwapConfirmedAmountUnknown { tx_hash: String },
    /// A transaction was sent and did not succeed.
    EvmSwapFailed { reason: String },
    /// Whether the swap reached the chain cannot be told; it must not be tried again.
    EvmSwapUnknown { reason: String },
    LiquidFilled { oid: u64, avg_price: Double, total_size: Double },
    LiquidResting { oid: u64 },
    LiquidCancelled { oid: u64 },
    /// `retriable` only where the exchange refused the order, so that it never was on the book.
    LiquidFailed { reason: String, retriable: bool },
}

/// What a [`TradeResult`] says.
pub ghost enum TradeResultView {
    EvmSwapSuccess { amount_out: Double, tx_hash: Seq<char> },
    EvmSwapAborted { reason: Seq<char> },
    EvmSwapConfirmedAmountUnknown { tx_hash: Seq<char> },
    EvmSwapFailed { reason: Seq<char> },
    EvmSwapUnknown { reason: Seq<char> },
    LiquidFilled { oid: u64, avg_price: Double, total_size: Double },
    LiquidResting { oid: u64 },
    LiquidCancelled { oid: u64 },
    LiquidFailed { reason: Seq<char>, retriable: bool },
}

impl View for TradeResult {
    type V = TradeResultView;

    open spec fn view(&self) -> TradeResultView {
        match *self {
            TradeResult::EvmSwapSuccess { amount_out, tx_hash } => TradeResultView::EvmSwapSuccess {
                amount_out,
                tx_hash: tx_hash@,
            },
            TradeResult::EvmSwapAborted { reason } => TradeResultView::EvmSwapAborted {
                reason: reason@,
            },
            TradeResult::EvmSwapConfirmedAmountUnknown { tx_hash } => {
                TradeResultView::EvmSwapConfirmedAmountUnknown { tx_hash: tx_hash@ }
            },
            TradeResult::EvmSwapFailed { reason } => TradeResultView::EvmSwapFailed {
                reason: reason@,
            },
            TradeResult::EvmSwapUnknown { reason } => TradeResultView::EvmSwapUnknown {
                reason: reason@,
            },
            TradeResult::LiquidFilled { oid, avg_price, total_size } => {
                TradeResultView::LiquidFilled { oid, avg_price, total_size }
            },
            TradeResult::LiquidResting { oid } => TradeResultView::LiquidResting { oid },
            TradeResult::LiquidCancelled { oid } => TradeResultView::LiquidCancelled { oid },
            TradeResult::LiquidFailed { reason, retriable } => TradeResultView::LiquidFailed {
                reason: reason@,
                retriable,
            },
        }
    }
}

} // verus!
