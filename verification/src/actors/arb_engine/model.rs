//! The engine as a state machine: what each event does.
use vstd::prelude::*;

use crate::actors::arb_engine::steps::{
    ActionView, ArbState, EffectView, EngineEvent, InFlightCycle, OrderContext, Pending, StepView,
    TurnView,
};
use crate::actors::pricing::{ArbDirection, TradePlan};
use crate::double::Double;
use crate::types::commands::{EvmSwapRequest, LiquidCommand};
use crate::types::market::{EvmPrice, OrderBook};

verus! {

/// Market data older than this are not traded on, in milliseconds.
pub const MAX_MARKET_AGE_MS: u64 = 5_000;

/// Data of the two markets further apart than this are not compared, in milliseconds.
pub const MAX_MARKET_SKEW_MS: u64 = 3_000;

/// The state of an engine.
pub ghost struct Model {
    pub symbol: Seq<char>,
    pub https_rpc: Seq<char>,
    pub wss_rpc: Seq<char>,
    pub dry_run: bool,
    pub terms: crate::actors::pricing::Terms,
    pub state: ArbState,
    pub cycle: Option<InFlightCycle>,
    pub evm: Option<EvmPrice>,
    pub book: Option<OrderBook>,
    /// The record that is known to be stored.
    pub record: Option<crate::db::RecordView>,
    /// The record that is being stored.
    pub unsaved: Option<crate::db::RecordView>,
    pub pending: Pending,
    /// No new trade is to begin.
    pub stopping: bool,
}

/// Nothing happens.
pub open spec fn quiet() -> StepView {
    StepView { effects: Seq::empty(), action: ActionView::Wait }
}

/// A request without notes.
pub open spec fn asking(action: ActionView) -> StepView {
    StepView { effects: Seq::empty(), action }
}

impl Model {
    /// No answer is outstanding.
    pub open spec fn settled(self) -> bool {
        self.pending == Pending::Nothing
    }

    /// The engine may end: it is to stop, and no trade is in progress.
    pub open spec fn done(self) -> bool {
        &&& self.stopping
        &&& self.settled()
        &&& self.state == ArbState::Idle || self.state == ArbState::RecoveryRequired
    }

    /// How late an order book came, noted where the server gave its time.
    pub open spec fn latency(self, book: OrderBook) -> Seq<crate::metrics::MetricUpdateView> {
        if book.created_at > 0 {
            seq![
                crate::metrics::by_one(
                    crate::metrics::Metric::HlOrderbookLatencyMs,
                    self.symbol,
                    crate::metrics::Change::SetTo(
                        Double::whole(
                            false,
                            if book.received_at > book.created_at {
                                (book.received_at - book.created_at) as nat
                            } else {
                                0
                            },
                        ),
                    ),
                ),
            ]
        } else {
            Seq::empty()
        }
    }

    /// Something has come in. Data of other pairs are left alone; data that were missed no longer
    /// count.
    pub open spec fn after_event(self, event: EngineEvent) -> (Model, TurnView) {
        match event {
            EngineEvent::Price(price) => if price.pair_id@ == self.symbol {
                (
                    Model { evm: Some(price), ..self },
                    TurnView::Judge { updates: Seq::empty() },
                )
            } else {
                (self, TurnView::Continue)
            },
            EngineEvent::PricesLost => (Model { evm: None, ..self }, TurnView::Continue),
            EngineEvent::PricesClosed => (self, TurnView::Stop),
            EngineEvent::Book(book) => if book.symbol@ == self.symbol {
                (
                    Model { book: Some(book), ..self },
                    TurnView::Judge { updates: self.latency(book) },
                )
            } else {
                (self, TurnView::Continue)
            },
            EngineEvent::BooksLost => (Model { book: None, ..self }, TurnView::Continue),
            EngineEvent::BooksClosed => (self, TurnView::Stop),
            EngineEvent::ShutdownRequested => (
                Model { stopping: true, ..self },
                TurnView::Continue,
            ),
        }
    }

    /// The record of the present stage. A transaction hash or an order number once recorded stays
    /// on record.
    pub open spec fn recorded(
        self,
        stage: Seq<char>,
        reason: Seq<char>,
        evm_tx_hash: Option<Seq<char>>,
        liquid_oid: Option<u64>,
    ) -> crate::db::RecordView {
        crate::db::RecordView {
            pair: self.symbol,
            stage,
            direction: match self.cycle {
                Some(cycle) => cycle.dir.name(),
                None => "unknown"@,
            },
            evm_tx_hash: match (evm_tx_hash, self.record) {
                (Some(hash), _) => Some(hash),
                (None, Some(record)) => record.evm_tx_hash,
                (None, None) => None,
            },
            liquid_oid: match (liquid_oid, self.record) {
                (Some(oid), _) => Some(oid),
                (None, Some(record)) => record.liquid_oid,
                (None, None) => None,
            },
            reason: crate::config::redaction::redacted(reason, self.https_rpc, self.wss_rpc),
        }
    }

    /// Stores a record; `then` says what follows.
    pub open spec fn saving(self, record: crate::db::RecordView, then: Pending) -> (Model, StepView) {
        (
            Model { unsaved: Some(record), pending: then, ..self },
            asking(ActionView::Save(record)),
        )
    }

    /// The record being stored is stored, unless that failed.
    pub open spec fn stored(self, succeeded: bool) -> Model {
        Model {
            record: if succeeded {
                self.unsaved
            } else {
                self.record
            },
            unsaved: None,
            pending: Pending::Nothing,
            ..self
        }
    }

    /// What ends a trade is noted.
    pub open spec fn ending(self) -> Seq<EffectView> {
        if self.cycle is Some {
            seq![EffectView::CycleEnded]
        } else {
            Seq::empty()
        }
    }

    /// The pair stops until people have dealt with it.
    pub open spec fn recovery(self, reason: Seq<char>) -> (Model, StepView) {
        let record: crate::db::RecordView = self.recorded("recovery_required"@, reason, None, None);
        (
            Model {
                state: ArbState::RecoveryRequired,
                cycle: None,
                unsaved: Some(record),
                pending: Pending::RecordRecovery,
                ..self
            },
            StepView {
                effects: self.ending().push(
                    EffectView::Metric(
                        crate::metrics::by_one(
                            crate::metrics::Metric::ArbRecoveryRequiredTotal,
                            self.symbol,
                            crate::metrics::Change::Increment,
                        ),
                    ),
                ),
                action: ActionView::Save(record),
            },
        )
    }

    /// The trade is over; its record is erased.
    pub open spec fn finishing(self) -> (Model, StepView) {
        (Model { pending: Pending::Erasing, ..self }, asking(ActionView::Erase))
    }

    /// Prices the second leg and records that it is about to be placed.
    pub open spec fn ordering(self, context: OrderContext, now: u64) -> (
        Model,
        StepView,
    ) {
        let text: Seq<char> = context.text();
        match (self.cycle, self.book) {
            (None, _) => self.recovery(text + " 下无在途周期，状态机异常"@),
            (Some(_), None) => self.recovery(text + ": order_book 为空"@),
            (Some(cycle), Some(book)) => {
                if !crate::actors::pricing::fresh(book.received_at, now, MAX_MARKET_AGE_MS) {
                    self.recovery(text + ": order_book 已过期"@)
                } else {
                    match crate::actors::pricing::hedge_size(
                        cycle.dir,
                        self.terms.size,
                        cycle.evm_amount_out,
                    ) {
                        Err(error) => self.recovery(text + ": "@ + error.text()),
                        Ok(size) => match crate::actors::pricing::hedge_order(
                            cycle.dir,
                            book.bid,
                            book.ask,
                            self.terms.limit_slippage,
                            size,
                            self.terms.size_decimals,
                        ) {
                            Err(error) => self.recovery(text + ": "@ + error.text()),
                            Ok(order) => self.saving(
                                self.recorded("liquid_pending"@, text, None, None),
                                Pending::RecordBeforeOrder {
                                    is_buy: cycle.dir.hedge_buys(),
                                    price: order.price,
                                    size: order.size,
                                },
                            ),
                        },
                    }
                }
            },
        }
    }

    /// What the two chances are noted as.
    pub open spec fn observed(self, buy: TradePlan, sell: TradePlan) -> Seq<EffectView> {
        let evm: EvmPrice = self.evm->Some_0;
        let book: OrderBook = self.book->Some_0;
        seq![
            EffectView::Metric(
                crate::metrics::by_two(
                    crate::metrics::Metric::PriceDiffBps,
                    "buy"@,
                    self.symbol,
                    crate::metrics::Change::SetTo(buy.diff_bps),
                ),
            ),
            EffectView::Metric(
                crate::metrics::by_two(
                    crate::metrics::Metric::PriceDiffBps,
                    "sell"@,
                    self.symbol,
                    crate::metrics::Change::SetTo(sell.diff_bps),
                ),
            ),
            EffectView::Metric(
                crate::metrics::by_one(
                    crate::metrics::Metric::MinProfitBps,
                    self.symbol,
                    crate::metrics::Change::SetTo(buy.minimum_diff_bps),
                ),
            ),
            EffectView::Metric(
                crate::metrics::by_two(
                    crate::metrics::Metric::HlPriceUsdc,
                    "ask"@,
                    self.symbol,
                    crate::metrics::Change::SetTo(book.ask),
                ),
            ),
            EffectView::Metric(
                crate::metrics::by_two(
                    crate::metrics::Metric::HlPriceUsdc,
                    "bid"@,
                    self.symbol,
                    crate::metrics::Change::SetTo(book.bid),
                ),
            ),
            EffectView::Price(
                crate::types::market::PriceRecordView {
                    pair: self.symbol,
                    evm_buy_price: evm.buy_price,
                    evm_sell_price: evm.sell_price,
                    liquid_ask: book.ask,
                    liquid_bid: book.bid,
                    sell_diff: sell.diff_bps,
                    buy_diff: buy.diff_bps,
                },
            ),
        ]
    }

    /// A chance that would have been taken in live trading is noted.
    pub open spec fn dry_run_note(self, plan: TradePlan) -> Seq<EffectView> {
        if plan.triggered() {
            seq![
                EffectView::Metric(
                    crate::metrics::by_two(
                        crate::metrics::Metric::ArbDryRunTriggerTotal,
                        plan.direction.name(),
                        self.symbol,
                        crate::metrics::Change::Increment,
                    ),
                ),
            ]
        } else {
            Seq::empty()
        }
    }

    /// A trade begins: before anything is sent, it goes on record.
    pub open spec fn starting(self, plan: TradePlan, noted: Seq<EffectView>) -> (Model, StepView) {
        let started: Model = Model { cycle: Some(InFlightCycle::fresh(plan.direction)), ..self };
        let record: crate::db::RecordView = started.recorded(
            "evm_pending"@,
            "等待 EVM 执行"@,
            None,
            None,
        );
        let request: EvmSwapRequest = EvmSwapRequest {
            is_buy: plan.direction == ArbDirection::SellDiff,
            amount_in: plan.amount_in,
            target_amount: plan.target_amount,
            dex: plan.dex,
        };
        let (next, step): (Model, StepView) = started.saving(
            record,
            Pending::RecordBeforeSwap(request),
        );
        (
            next,
            StepView {
                effects: noted.push(
                    EffectView::Metric(
                        crate::metrics::by_two(
                            crate::metrics::Metric::ArbTriggerTotal,
                            plan.direction.name(),
                            self.symbol,
                            crate::metrics::Change::Increment,
                        ),
                    ),
                ).push(EffectView::CycleStarted),
                action: step.action,
            },
        )
    }

    /// The chances that the engine may act on: it is idle, and it has fresh data of both markets
    /// that can be judged.
    pub open spec fn chances(self, now: u64) -> Option<
        (TradePlan, TradePlan),
    > {
        match (self.evm, self.book) {
            (Some(evm), Some(book)) => {
                if self.settled() && self.state == ArbState::Idle
                    && crate::actors::pricing::both_fresh(
                    evm.received_at,
                    book.received_at,
                    now,
                    MAX_MARKET_AGE_MS,
                    MAX_MARKET_SKEW_MS,
                ) {
                    match crate::actors::pricing::opportunities(
                        self.terms,
                        crate::actors::pricing::quotes_of(evm, book),
                    ) {
                        Ok(plans) => Some(plans),
                        Err(_) => None,
                    }
                } else {
                    None
                }
            },
            _ => None,
        }
    }

    /// New market data have come in. In live trading the first chance that triggers is taken; a
    /// dry run notes all that do.
    pub open spec fn after_quote(self, now: u64) -> (Model, StepView) {
        match self.chances(now) {
            None => (self, quiet()),
            Some((buy, sell)) => {
                let noted: Seq<EffectView> = self.observed(buy, sell);
                if self.dry_run {
                    (
                        self,
                        StepView {
                            effects: noted + self.dry_run_note(buy) + self.dry_run_note(sell),
                            action: ActionView::Wait,
                        },
                    )
                } else if buy.triggered() {
                    self.starting(buy, noted)
                } else if sell.triggered() {
                    self.starting(sell, noted)
                } else {
                    (self, StepView { effects: noted, action: ActionView::Wait })
                }
            },
        }
    }

    /// A trader has answered. Answers that do not belong to the present state are ignored.
    pub open spec fn after_result(
        self,
        result: crate::types::commands::TradeResultView,
        now: u64,
    ) -> (Model, StepView) {
        match (self.state, result) {
            (
                ArbState::EvmSwapping,
                crate::types::commands::TradeResultView::EvmSwapSuccess { amount_out, tx_hash },
            ) => {
                let confirmed: Model = Model {
                    cycle: match self.cycle {
                        Some(cycle) => Some(
                            InFlightCycle { evm_amount_out: Some(amount_out), ..cycle },
                        ),
                        None => None,
                    },
                    ..self
                };
                confirmed.saving(
                    self.recorded(
                        "evm_confirmed"@,
                        "EVM 已确认，等待 HL 对冲"@,
                        Some(tx_hash),
                        None,
                    ),
                    Pending::RecordConfirmation(OrderContext::EvmSwapSuccess),
                )
            },
            (
                ArbState::EvmSwapping,
                crate::types::commands::TradeResultView::EvmSwapAborted { .. },
            ) => self.finishing(),
            (
                ArbState::EvmSwapping,
                crate::types::commands::TradeResultView::EvmSwapConfirmedAmountUnknown { tx_hash },
            ) => self.saving(
                self.recorded(
                    "evm_confirmed_amount_unknown"@,
                    "EVM 已确认但实际金额未知"@,
                    Some(tx_hash),
                    None,
                ),
                Pending::RecordConfirmation(OrderContext::TransferEventMissing),
            ),
            (
                ArbState::EvmSwapping,
                crate::types::commands::TradeResultView::EvmSwapFailed { reason },
            ) => self.recovery(reason),
            (
                ArbState::EvmSwapping,
                crate::types::commands::TradeResultView::EvmSwapUnknown { reason },
            ) => self.recovery(reason),
            (
                ArbState::LiquidOrdering,
                crate::types::commands::TradeResultView::LiquidFilled { oid, total_size, .. },
            ) => self.saving(
                self.recorded("liquid_filled"@, "HL 对冲已成交"@, None, Some(oid)),
                Pending::RecordFill { total_size },
            ),
            (
                ArbState::LiquidOrdering,
                crate::types::commands::TradeResultView::LiquidResting { oid },
            ) => self.saving(
                self.recorded(
                    "liquid_resting"@,
                    "HL IOC 返回 resting，正在撤单"@,
                    None,
                    Some(oid),
                ),
                Pending::RecordResting { oid },
            ),
            (
                ArbState::LiquidOrdering,
                crate::types::commands::TradeResultView::LiquidCancelled { .. },
            ) => self.recovery("Liquid 挂单撤销后仍有未对冲仓位"@),
            (
                ArbState::LiquidOrdering,
                crate::types::commands::TradeResultView::LiquidFailed { reason, retriable },
            ) => match self.cycle {
                Some(cycle) => if retriable && !cycle.liquid_retry_used {
                    let retrying: Model = Model {
                        cycle: Some(InFlightCycle { liquid_retry_used: true, ..cycle }),
                        ..self
                    };
                    retrying.ordering(OrderContext::LiquidRetry, now)
                } else {
                    self.recovery(reason)
                },
                None => self.recovery(reason),
            },
            _ => (self, quiet()),
        }
    }

    /// What was asked for has been done, or has failed with the given text.
    pub open spec fn after_answer(
        self,
        failure: Option<Seq<char>>,
        now: u64,
    ) -> (Model, StepView) {
        let stored: Model = self.stored(failure is None);
        let heard: Model = Model { pending: Pending::Nothing, ..self };
        match self.pending {
            Pending::Nothing => (self, quiet()),
            Pending::RecordBeforeSwap(request) => match failure {
                None => (
                    Model { pending: Pending::SwapSending, ..stored },
                    asking(ActionView::Swap(request)),
                ),
                Some(error) => stored.recovery("无法持久化 EVM 待执行状态: "@ + error),
            },
            Pending::SwapSending => match failure {
                None => (Model { state: ArbState::EvmSwapping, ..heard }, quiet()),
                Some(_) => heard.finishing(),
            },
            Pending::RecordConfirmation(context) => stored.ordering(context, now),
            Pending::RecordBeforeOrder { is_buy, price, size } => (
                Model {
                    state: ArbState::LiquidOrdering,
                    cycle: match self.cycle {
                        Some(cycle) => Some(
                            InFlightCycle { expected_liquid_size: Some(size), ..cycle },
                        ),
                        None => None,
                    },
                    pending: Pending::OrderSending,
                    ..stored
                },
                asking(ActionView::Order(LiquidCommand::Order { is_buy, price, size })),
            ),
            Pending::OrderSending => match failure {
                None => (heard, quiet()),
                Some(_) => heard.recovery("发送 LiquidOrder 失败"@),
            },
            Pending::RecordFill { total_size } => match stored.cycle {
                Some(cycle) => match cycle.expected_liquid_size {
                    Some(expected) => if crate::actors::pricing::complete_fill(
                        expected,
                        total_size,
                    ) {
                        stored.finishing()
                    } else {
                        stored.recovery("Liquid 仅部分成交"@)
                    },
                    None => stored.recovery("expected_liquid_size 缺失，状态机异常"@),
                },
                None => stored.recovery("expected_liquid_size 缺失，状态机异常"@),
            },
            Pending::RecordResting { oid } => (
                Model { pending: Pending::CancelSending, ..stored },
                asking(ActionView::Order(LiquidCommand::Cancel { oid })),
            ),
            Pending::CancelSending => match failure {
                None => (heard, quiet()),
                Some(_) => heard.recovery("发送 LiquidCancel 失败"@),
            },
            Pending::Erasing => match failure {
                None => (
                    Model { state: ArbState::Idle, cycle: None, record: None, ..heard },
                    StepView { effects: self.ending(), action: ActionView::Wait },
                ),
                Some(error) => heard.recovery("清除已完成交易的恢复记录失败: "@ + error),
            },
            Pending::RecordRecovery => (stored, quiet()),
        }
    }
}

} // verus!
