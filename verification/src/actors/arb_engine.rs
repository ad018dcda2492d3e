//! The engine of one pair.
//!
//! It compares the two markets, begins a trade where the difference pays, and sees the trade
//! through both legs. Each method takes one event and gives back one [`Step`]: notes, and one
//! request that must be carried out and answered before the next event.
use std::sync::Arc;

use vstd::prelude::*;

use crate::actors::arb_engine::model::{MAX_MARKET_AGE_MS, MAX_MARKET_SKEW_MS};
use crate::actors::arb_engine::steps::{note, note_all};
use crate::actors::pricing::{
    evaluate_opportunities, fill_is_complete, hedge_size_token1, market_data_is_fresh,
    normalized_worst_liquid_price, timestamp_is_fresh,
    PricingError, TradePlan,
};
use crate::config::{Config, PairConfig};
use crate::db::{copy_text, RecoveryRecord};
use crate::double::Double;
use crate::liquid::client::NormalizedSpotOrder;
use crate::liquid::markets::LiquidMarketRules;
use crate::metrics::{
    record_arb_dry_run_triggered, record_arb_recovery_required, record_arb_triggered,
    record_hl_orderbook_latency, record_hl_price, record_price_diff, MetricUpdate,
};
use crate::text::{join, same};
use crate::types::commands::{EvmSwapRequest, LiquidCommand, TradeResult};
use crate::types::market::{EvmPrice, OrderBook, PriceRecord};

pub mod flow;
pub mod laws;
pub mod model;
pub mod steps;

pub use crate::actors::arb_engine::steps::{
    Action, ArbState, Effect, EngineEvent, InFlightCycle, OrderContext, Pending, Step, Turn,
};
pub use crate::actors::pricing::ArbDirection;

verus! {

/// The engine of one pair.
pub struct ArbEngine {
    global: Arc<Config>,
    pair: Arc<PairConfig>,
    liquid_rules: LiquidMarketRules,
    state: ArbState,
    cycle: Option<InFlightCycle>,
    last_evm_price: Option<EvmPrice>,
    last_order_book: Option<OrderBook>,
    recovery_record: Option<RecoveryRecord>,
    unsaved_record: Option<RecoveryRecord>,
    pending: Pending,
    stopping: bool,
}

/// What an optional record says.
pub open spec fn optional_record(record: Option<RecoveryRecord>) -> Option<crate::db::RecordView> {
    match record {
        Some(r) => Some(r@),
        None => None,
    }
}

impl View for ArbEngine {
    type V = crate::actors::arb_engine::model::Model;

    closed spec fn view(&self) -> crate::actors::arb_engine::model::Model {
        crate::actors::arb_engine::model::Model {
            symbol: self.pair.symbol@,
            https_rpc: self.global.https_rpc@,
            wss_rpc: self.global.wss_rpc@,
            dry_run: self.global.dry_run,
            terms: crate::actors::pricing::terms_of(
                *self.global,
                *self.pair,
                self.liquid_rules.size_decimals,
            ),
            state: self.state,
            cycle: self.cycle,
            evm: self.last_evm_price,
            book: self.last_order_book,
            record: optional_record(self.recovery_record),
            unsaved: optional_record(self.unsaved_record),
            pending: self.pending,
            stopping: self.stopping,
        }
    }
}

/// The text of a failure.
pub open spec fn failure_text(outcome: Result<(), String>) -> Option<Seq<char>> {
    match outcome {
        Ok(()) => None,
        Err(error) => Some(error@),
    }
}

fn quiet_step() -> (step: Step)
    ensures
        step@ == crate::actors::arb_engine::model::quiet(),
{
    let step: Step = Step { effects: Vec::new(), action: Action::Wait };
    assert(step@.effects =~= Seq::empty());
    step
}

fn asking_step(action: Action) -> (step: Step)
    ensures
        step@ == crate::actors::arb_engine::model::asking(action@),
{
    let step: Step = Step { effects: Vec::new(), action };
    assert(step@.effects =~= Seq::empty());
    step
}

impl ArbEngine {
    /// An engine that has seen nothing yet.
    pub fn new(global: Arc<Config>, pair: Arc<PairConfig>, liquid_rules: LiquidMarketRules) -> (engine:
        ArbEngine)
        ensures
            engine@ == (crate::actors::arb_engine::model::Model {
                symbol: pair.symbol@,
                https_rpc: global.https_rpc@,
                wss_rpc: global.wss_rpc@,
                dry_run: global.dry_run,
                terms: crate::actors::pricing::terms_of(
                    *global,
                    *pair,
                    liquid_rules.size_decimals,
                ),
                state: ArbState::Idle,
                cycle: None,
                evm: None,
                book: None,
                record: None,
                unsaved: None,
                pending: Pending::Nothing,
                stopping: false,
            }),
            engine@.sound(),
    {
        ArbEngine {
            global,
            pair,
            liquid_rules,
            state: ArbState::Idle,
            cycle: None,
            last_evm_price: None,
            last_order_book: None,
            recovery_record: None,
            unsaved_record: None,
            pending: Pending::Nothing,
            stopping: false,
        }
    }

    /// Where the pair stands.
    pub fn state(&self) -> (state: ArbState)
        ensures
            state == self@.state,
    {
        self.state
    }

    /// Whether no answer is outstanding.
    pub fn is_settled(&self) -> (settled: bool)
        ensures
            settled == self@.settled(),
    {
        match self.pending {
            Pending::Nothing => true,
            _ => false,
        }
    }

    /// Whether the engine may end: it is to stop, and no trade is in progress.
    pub fn is_done(&self) -> (done: bool)
        ensures
            done == self@.done(),
    {
        self.stopping && self.is_settled() && (self.state == ArbState::Idle || self.state
            == ArbState::RecoveryRequired)
    }

    fn latency_updates(&self, book: &OrderBook) -> (updates: Vec<MetricUpdate>)
        requires
            book.symbol@ == self@.symbol,
        ensures
            crate::metrics::updates_view(updates@) == self@.latency(*book),
    {
        let mut updates: Vec<MetricUpdate> = Vec::new();
        if book.created_at > 0 {
            let late: u64 = book.received_at.saturating_sub(book.created_at);
            updates.push(
                record_hl_orderbook_latency(
                    book.symbol.as_str(),
                    Double::from_integer(late as u128),
                ),
            );
        }
        assert(crate::metrics::updates_view(updates@) =~= self@.latency(*book));
        updates
    }

    /// Takes what has come in.
    pub fn accept(&mut self, event: EngineEvent) -> (turn: Turn)
        ensures
            (final(self)@, turn@) == old(self)@.after_event(event),
            old(self)@.sound() ==> final(self)@.sound(),
    {
        match event {
            EngineEvent::Price(price) => {
                if same(price.pair_id.as_str(), self.pair.symbol.as_str()) {
                    self.last_evm_price = Some(price);
                    let turn: Turn = Turn::Judge { updates: Vec::new() };
                    assert(turn@->Judge_updates =~= Seq::empty());
                    turn
                } else {
                    Turn::Continue
                }
            },
            EngineEvent::PricesLost => {
                self.last_evm_price = None;
                Turn::Continue
            },
            EngineEvent::PricesClosed => Turn::Stop,
            EngineEvent::Book(book) => {
                if same(book.symbol.as_str(), self.pair.symbol.as_str()) {
                    let updates: Vec<MetricUpdate> = self.latency_updates(&book);
                    self.last_order_book = Some(book);
                    Turn::Judge { updates }
                } else {
                    Turn::Continue
                }
            },
            EngineEvent::BooksLost => {
                self.last_order_book = None;
                Turn::Continue
            },
            EngineEvent::BooksClosed => Turn::Stop,
            EngineEvent::ShutdownRequested => {
                self.stopping = true;
                Turn::Continue
            },
        }
    }

    fn stage_record(
        &self,
        stage: &str,
        reason: &str,
        evm_tx_hash: Option<String>,
        liquid_oid: Option<u64>,
    ) -> (record: RecoveryRecord)
        ensures
            record@ == self@.recorded(
                stage@,
                reason@,
                crate::db::optional_text(evm_tx_hash),
                liquid_oid,
            ),
    {
        let direction: &str = match &self.cycle {
            Some(cycle) => cycle.dir.label(),
            None => "unknown",
        };
        let hash: Option<String> = match evm_tx_hash {
            Some(hash) => Some(hash),
            None => match &self.recovery_record {
                Some(record) => copy_text(&record.evm_tx_hash),
                None => None,
            },
        };
        let oid: Option<u64> = match liquid_oid {
            Some(oid) => Some(oid),
            None => match &self.recovery_record {
                Some(record) => record.liquid_oid,
                None => None,
            },
        };
        RecoveryRecord {
            pair: self.pair.symbol.clone(),
            stage: stage.to_owned(),
            direction: direction.to_owned(),
            evm_tx_hash: hash,
            liquid_oid: oid,
            reason: self.global.redact_rpc(reason),
        }
    }

    fn persist_stage(&mut self, record: RecoveryRecord, then: Pending) -> (step: Step)
        ensures
            (final(self)@, step@) == old(self)@.saving(record@, then),
    {
        self.unsaved_record = Some(record.clone());
        self.pending = then;
        asking_step(Action::Save(record))
    }

    fn store(&mut self, succeeded: bool)
        ensures
            final(self)@ == old(self)@.stored(succeeded),
    {
        let unsaved: Option<RecoveryRecord> = self.unsaved_record.take();
        if succeeded {
            self.recovery_record = unsaved;
        }
        self.pending = Pending::Nothing;
    }

    fn ending_effects(&self) -> (effects: Vec<Effect>)
        ensures
            crate::actors::arb_engine::steps::effects_view(effects@) == self@.ending(),
    {
        let mut effects: Vec<Effect> = Vec::new();
        match self.cycle {
            Some(_) => {
                effects.push(Effect::CycleEnded);
            },
            None => {},
        }
        assert(crate::actors::arb_engine::steps::effects_view(effects@) =~= self@.ending());
        effects
    }

    fn require_recovery(&mut self, reason: &str) -> (step: Step)
        ensures
            (final(self)@, step@) == old(self)@.recovery(reason@),
    {
        let mut effects: Vec<Effect> = self.ending_effects();
        note(&mut effects, Effect::Metric(record_arb_recovery_required(self.pair.symbol.as_str())));
        let record: RecoveryRecord = self.stage_record("recovery_required", reason, None, None);
        self.state = ArbState::RecoveryRequired;
        self.cycle = None;
        self.unsaved_record = Some(record.clone());
        self.pending = Pending::RecordRecovery;
        Step { effects, action: Action::Save(record) }
    }

    fn finish_arb_cycle(&mut self) -> (step: Step)
        ensures
            (final(self)@, step@) == old(self)@.finishing(),
    {
        self.pending = Pending::Erasing;
        asking_step(Action::Erase)
    }

    fn proceed_to_liquid_order(&mut self, context: OrderContext, now: u64) -> (step:
        Step)
        ensures
            (final(self)@, step@) == old(self)@.ordering(context, now),
    {
        let text: &str = context.as_str();
        let cycle: InFlightCycle = match self.cycle {
            Some(cycle) => cycle,
            None => {
                return self.require_recovery(join(text, " 下无在途周期，状态机异常").as_str());
            },
        };
        let book: &OrderBook = match &self.last_order_book {
            Some(book) => book,
            None => {
                return self.require_recovery(join(text, ": order_book 为空").as_str());
            },
        };
        if !timestamp_is_fresh(book.received_at, now, MAX_MARKET_AGE_MS) {
            return self.require_recovery(join(text, ": order_book 已过期").as_str());
        }
        let size: Double = match hedge_size_token1(
            cycle.dir,
            self.pair.order_size_token1,
            cycle.evm_amount_out,
        ) {
            Ok(size) => size,
            Err(error) => {
                return self.require_recovery(
                    join(join(text, ": ").as_str(), error.message().as_str()).as_str(),
                );
            },
        };
        let priced: Result<NormalizedSpotOrder, PricingError> = normalized_worst_liquid_price(
            cycle.dir,
            book,
            self.pair.limit_slippage,
            size,
            self.liquid_rules.size_decimals,
        );
        let order: NormalizedSpotOrder = match priced {
            Ok(order) => order,
            Err(error) => {
                return self.require_recovery(
                    join(join(text, ": ").as_str(), error.message().as_str()).as_str(),
                );
            },
        };
        let is_buy: bool = match cycle.dir {
            ArbDirection::BuyDiff => true,
            ArbDirection::SellDiff => false,
        };
        let record: RecoveryRecord = self.stage_record("liquid_pending", text, None, None);
        self.persist_stage(
            record,
            Pending::RecordBeforeOrder { is_buy, price: order.price, size: order.size },
        )
    }

    fn observe(&self, buy: &TradePlan, sell: &TradePlan, evm: &EvmPrice, book: &OrderBook) -> (effects:
        Vec<Effect>)
        requires
            self@.evm == Some(*evm),
            self@.book == Some(*book),
        ensures
            crate::actors::arb_engine::steps::effects_view(effects@) == self@.observed(*buy, *sell),
    {
        let symbol: &str = self.pair.symbol.as_str();
        let mut effects: Vec<Effect> = Vec::new();
        note_all(
            &mut effects,
            record_price_diff(symbol, buy.diff_bps, sell.diff_bps, buy.minimum_diff_bps),
        );
        note_all(&mut effects, record_hl_price(symbol, book.ask, book.bid));
        note(
            &mut effects,
            Effect::Price(
                PriceRecord {
                    pair: self.pair.symbol.clone(),
                    evm_buy_price: evm.buy_price,
                    evm_sell_price: evm.sell_price,
                    liquid_ask: book.ask,
                    liquid_bid: book.bid,
                    sell_diff: sell.diff_bps,
                    buy_diff: buy.diff_bps,
                },
            ),
        );
        assert(crate::actors::arb_engine::steps::effects_view(effects@) =~= self@.observed(
            *buy,
            *sell,
        ));
        effects
    }

    fn note_dry_run(&self, plan: &TradePlan, effects: &mut Vec<Effect>)
        ensures
            crate::actors::arb_engine::steps::effects_view(final(effects)@)
                == crate::actors::arb_engine::steps::effects_view(old(effects)@)
                + self@.dry_run_note(*plan),
    {
        if plan.is_triggered() {
            note(
                effects,
                Effect::Metric(
                    record_arb_dry_run_triggered(
                        self.pair.symbol.as_str(),
                        plan.direction.label(),
                    ),
                ),
            );
        }
        assert(crate::actors::arb_engine::steps::effects_view(effects@)
            =~= crate::actors::arb_engine::steps::effects_view(old(effects)@) + self@.dry_run_note(
            *plan,
        ));
    }

    fn send_evm_swap(&mut self, plan: &TradePlan, noted: Vec<Effect>) -> (step: Step)
        ensures
            (final(self)@, step@) == old(self)@.starting(
                *plan,
                crate::actors::arb_engine::steps::effects_view(noted@),
            ),
    {
        let mut effects: Vec<Effect> = noted;
        note(
            &mut effects,
            Effect::Metric(
                record_arb_triggered(self.pair.symbol.as_str(), plan.direction.label()),
            ),
        );
        note(&mut effects, Effect::CycleStarted);
        self.cycle = Some(InFlightCycle::new(plan.direction));
        let record: RecoveryRecord = self.stage_record("evm_pending", "等待 EVM 执行", None, None);
        let request: EvmSwapRequest = EvmSwapRequest {
            is_buy: match plan.direction {
                ArbDirection::BuyDiff => false,
                ArbDirection::SellDiff => true,
            },
            amount_in: plan.amount_in,
            target_amount: plan.target_amount,
            dex: plan.dex,
        };
        let saved: Step = self.persist_stage(record, Pending::RecordBeforeSwap(request));
        Step { effects, action: saved.action }
    }

    /// New market data have come in.
    pub fn try_arb(&mut self, now: u64) -> (step: Step)
        ensures
            (final(self)@, step@) == old(self)@.after_quote(now),
            old(self)@.sound() ==> final(self)@.sound(),
    {
        proof {
            if self@.sound() {
                crate::actors::arb_engine::laws::law_quotes_keep_the_engine_sound(self@, now);
            }
        }
        if !self.is_settled() || !self.state.can_start_quote() {
            return quiet_step();
        }
        let (evm, book): (&EvmPrice, &OrderBook) = match (
            &self.last_evm_price,
            &self.last_order_book,
        ) {
            (Some(evm), Some(book)) => (evm, book),
            _ => {
                return quiet_step();
            },
        };
        if !market_data_is_fresh(
            evm.received_at,
            book.received_at,
            now,
            MAX_MARKET_AGE_MS,
            MAX_MARKET_SKEW_MS,
        ) {
            return quiet_step();
        }
        let (buy, sell): (TradePlan, TradePlan) = match evaluate_opportunities(
            &self.global,
            &self.pair,
            &self.liquid_rules,
            evm,
            book,
        ) {
            Ok(plans) => plans,
            Err(_) => {
                return quiet_step();
            },
        };
        let mut effects: Vec<Effect> = self.observe(&buy, &sell, evm, book);
        if self.global.dry_run {
            self.note_dry_run(&buy, &mut effects);
            self.note_dry_run(&sell, &mut effects);
            return Step { effects, action: Action::Wait };
        }
        if buy.is_triggered() {
            return self.send_evm_swap(&buy, effects);
        }
        if sell.is_triggered() {
            return self.send_evm_swap(&sell, effects);
        }
        Step { effects, action: Action::Wait }
    }

    /// A trader has answered.
    pub fn handle_trade_result(&mut self, result: TradeResult, now: u64) -> (step:
        Step)
        requires
            old(self)@.settled(),
        ensures
            (final(self)@, step@) == old(self)@.after_result(result@, now),
            old(self)@.sound() ==> final(self)@.sound(),
    {
        proof {
            if self@.sound() {
                crate::actors::arb_engine::laws::law_results_keep_the_engine_sound(
                    self@,
                    result@,
                    now,
                );
            }
        }
        match (self.state, result) {
            (ArbState::EvmSwapping, TradeResult::EvmSwapSuccess { amount_out, tx_hash }) => {
                let record: RecoveryRecord = self.stage_record(
                    "evm_confirmed",
                    "EVM 已确认，等待 HL 对冲",
                    Some(tx_hash),
                    None,
                );
                self.cycle = match self.cycle {
                    Some(cycle) => Some(
                        InFlightCycle { evm_amount_out: Some(amount_out), ..cycle },
                    ),
                    None => None,
                };
                self.persist_stage(
                    record,
                    Pending::RecordConfirmation(OrderContext::EvmSwapSuccess),
                )
            },
            (ArbState::EvmSwapping, TradeResult::EvmSwapAborted { .. }) => self.finish_arb_cycle(),
            (ArbState::EvmSwapping, TradeResult::EvmSwapConfirmedAmountUnknown { tx_hash }) => {
                let record: RecoveryRecord = self.stage_record(
                    "evm_confirmed_amount_unknown",
                    "EVM 已确认但实际金额未知",
                    Some(tx_hash),
                    None,
                );
                self.persist_stage(
                    record,
                    Pending::RecordConfirmation(OrderContext::TransferEventMissing),
                )
            },
            (ArbState::EvmSwapping, TradeResult::EvmSwapFailed { reason }) => self.require_recovery(
                reason.as_str(),
            ),
            (ArbState::EvmSwapping, TradeResult::EvmSwapUnknown { reason }) => {
                self.require_recovery(reason.as_str())
            },
            (ArbState::LiquidOrdering, TradeResult::LiquidFilled { oid, total_size, .. }) => {
                let record: RecoveryRecord = self.stage_record(
                    "liquid_filled",
                    "HL 对冲已成交",
                    None,
                    Some(oid),
                );
                self.persist_stage(record, Pending::RecordFill { total_size })
            },
            (ArbState::LiquidOrdering, TradeResult::LiquidResting { oid }) => {
                let record: RecoveryRecord = self.stage_record(
                    "liquid_resting",
                    "HL IOC 返回 resting，正在撤单",
                    None,
                    Some(oid),
                );
                self.persist_stage(record, Pending::RecordResting { oid })
            },
            (ArbState::LiquidOrdering, TradeResult::LiquidCancelled { .. }) => {
                self.require_recovery("Liquid 挂单撤销后仍有未对冲仓位")
            },
            (ArbState::LiquidOrdering, TradeResult::LiquidFailed { reason, retriable }) => {
                let retry: Option<InFlightCycle> = match self.cycle {
                    Some(cycle) => if retriable && !cycle.liquid_retry_used {
                        Some(InFlightCycle { liquid_retry_used: true, ..cycle })
                    } else {
                        None
                    },
                    None => None,
                };
                match retry {
                    Some(cycle) => {
                        self.cycle = Some(cycle);
                        self.proceed_to_liquid_order(OrderContext::LiquidRetry, now)
                    },
                    None => self.require_recovery(reason.as_str()),
                }
            },
            _ => quiet_step(),
        }
    }

    /// What was asked for has been done, or has failed with the given text.
    pub fn resume(&mut self, outcome: Result<(), String>, now: u64) -> (step:
        Step)
        ensures
            (final(self)@, step@) == old(self)@.after_answer(
                failure_text(outcome),
                now,
            ),
            old(self)@.sound() ==> final(self)@.sound(),
    {
        proof {
            if self@.sound() {
                crate::actors::arb_engine::laws::law_answers_keep_the_engine_sound(
                    self@,
                    failure_text(outcome),
                    now,
                );
            }
        }
        let succeeded: bool = outcome.is_ok();
        match self.pending {
            Pending::Nothing => quiet_step(),
            Pending::RecordBeforeSwap(request) => {
                self.store(succeeded);
                match outcome {
                    Ok(()) => {
                        self.pending = Pending::SwapSending;
                        asking_step(Action::Swap(request))
                    },
                    Err(error) => self.require_recovery(
                        join("无法持久化 EVM 待执行状态: ", error.as_str()).as_str(),
                    ),
                }
            },
            Pending::SwapSending => {
                self.pending = Pending::Nothing;
                if succeeded {
                    self.state = ArbState::EvmSwapping;
                    quiet_step()
                } else {
                    self.finish_arb_cycle()
                }
            },
            Pending::RecordConfirmation(context) => {
                self.store(succeeded);
                self.proceed_to_liquid_order(context, now)
            },
            Pending::RecordBeforeOrder { is_buy, price, size } => {
                self.store(succeeded);
                self.state = ArbState::LiquidOrdering;
                self.cycle = match self.cycle {
                    Some(cycle) => Some(
                        InFlightCycle { expected_liquid_size: Some(size), ..cycle },
                    ),
                    None => None,
                };
                self.pending = Pending::OrderSending;
                asking_step(Action::Order(LiquidCommand::Order { is_buy, price, size }))
            },
            Pending::OrderSending => {
                self.pending = Pending::Nothing;
                if succeeded {
                    quiet_step()
                } else {
                    self.require_recovery("发送 LiquidOrder 失败")
                }
            },
            Pending::RecordFill { total_size } => {
                self.store(succeeded);
                let expected: Option<Double> = match self.cycle {
                    Some(cycle) => cycle.expected_liquid_size,
                    None => None,
                };
                match expected {
                    None => self.require_recovery("expected_liquid_size 缺失，状态机异常"),
                    Some(expected) => if fill_is_complete(expected, total_size) {
                        self.finish_arb_cycle()
                    } else {
                        self.require_recovery("Liquid 仅部分成交")
                    },
                }
            },
            Pending::RecordResting { oid } => {
                self.store(succeeded);
                self.pending = Pending::CancelSending;
                asking_step(Action::Order(LiquidCommand::Cancel { oid }))
            },
            Pending::CancelSending => {
                self.pending = Pending::Nothing;
                if succeeded {
                    quiet_step()
                } else {
                    self.require_recovery("发送 LiquidCancel 失败")
                }
            },
            Pending::Erasing => {
                self.pending = Pending::Nothing;
                match outcome {
                    Ok(()) => {
                        let effects: Vec<Effect> = self.ending_effects();
                        self.state = ArbState::Idle;
                        self.cycle = None;
                        self.recovery_record = None;
                        Step { effects, action: Action::Wait }
                    },
                    Err(error) => self.require_recovery(
                        join("清除已完成交易的恢复记录失败: ", error.as_str()).as_str(),
                    ),
                }
            },
            Pending::RecordRecovery => {
                self.store(succeeded);
                quiet_step()
            },
        }
    }

    /// The traders are gone: no answer will come any more.
    pub fn lose_results(&mut self) -> (step: Step)
        ensures
            (final(self)@, step@) == old(self)@.recovery("trade result channel 已关闭"@),
            old(self)@.sound() ==> final(self)@.sound(),
    {
        proof {
            if self@.sound() {
                crate::actors::arb_engine::laws::law_lost_results_keep_the_engine_sound(
                    self@,
                    "trade result channel 已关闭"@,
                );
            }
        }
        self.require_recovery("trade result channel 已关闭")
    }
}

} // verus!
