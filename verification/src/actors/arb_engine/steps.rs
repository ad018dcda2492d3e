//! What the engine remembers between steps and what a step asks for.
use vstd::prelude::*;

use crate::actors::pricing::ArbDirection;
use crate::db::RecoveryRecord;
use crate::double::Double;
use crate::metrics::MetricUpdate;
use crate::types::commands::{EvmSwapRequest, LiquidCommand};
use crate::types::market::{EvmPrice, OrderBook, PriceRecord};

verus! {

/// Where a pair stands.
#[derive(Debug, Clone, Copy, PartialEq, Eq, Structural)]
pub enum ArbState {
    Idle,
    EvmSwapping,
    LiquidOrdering,
    RecoveryRequired,
}

impl ArbState {
    /// Whether a new trade may begin.
    pub fn can_start_quote(&self) -> (result: bool)
        ensures
            result == (*self == ArbState::Idle),
    {
        match self {
            ArbState::Idle => true,
            _ => false,
        }
    }
}

/// A trade in progress.
#[derive(Debug, Clone, Copy, PartialEq, Eq, Structural)]
pub struct InFlightCycle {
    pub dir: ArbDirection,
    /// The size that the order was placed for, once it is placed.
    pub expected_liquid_size: Option<Double>,
    /// What the first leg brought, where that is known.
    pub evm_amount_out: Option<Double>,
    /// A refused order may be placed again once.
    pub liquid_retry_used: bool,
}

impl InFlightCycle {
    /// The cycle of a trade that has just begun.
    pub open spec fn fresh(dir: ArbDirection) -> InFlightCycle {
        InFlightCycle {
            dir,
            expected_liquid_size: None,
            evm_amount_out: None,
            liquid_retry_used: false,
        }
    }

    /// A trade that has just begun.
    pub fn new(dir: ArbDirection) -> (cycle: InFlightCycle)
        ensures
            cycle == InFlightCycle::fresh(dir),
    {
        InFlightCycle {
            dir,
            expected_liquid_size: None,
            evm_amount_out: None,
            liquid_retry_used: false,
        }
    }
}

/// What led to placing an order.
#[derive(Debug, Clone, Copy, PartialEq, Eq, Structural)]
pub enum OrderContext {
    EvmSwapSuccess,
    TransferEventMissing,
    LiquidRetry,
}

impl OrderContext {
    /// Its name in records.
    pub open spec fn text(self) -> Seq<char> {
        match self {
            OrderContext::EvmSwapSuccess => "EvmSwapSuccess"@,
            OrderContext::TransferEventMissing => "TransferEventMissing"@,
            OrderContext::LiquidRetry => "LiquidRetry"@,
        }
    }

    /// Its name in records.
    pub fn as_str(self) -> (text: &'static str)
        ensures
            text@ == self.text(),
    {
        match self {
            OrderContext::EvmSwapSuccess => "EvmSwapSuccess",
            OrderContext::TransferEventMissing => "TransferEventMissing",
            OrderContext::LiquidRetry => "LiquidRetry",
        }
    }
}

/// What comes in from outside.
#[derive(Debug, Clone)]
pub enum EngineEvent {
    /// A quote came.
    Price(EvmPrice),
    /// Quotes were missed.
    PricesLost,
    /// No more quotes will come.
    PricesClosed,
    /// An order book came.
    Book(OrderBook),
    /// Order books were missed.
    BooksLost,
    /// No more order books will come.
    BooksClosed,
    /// The system is to stop.
    ShutdownRequested,
}

/// What an event calls for.
#[derive(Debug, Clone)]
pub enum Turn {
    /// Nothing.
    Continue,
    /// The markets are to be compared again, after noting the updates.
    Judge { updates: Vec<MetricUpdate> },
    /// The engine cannot go on.
    Stop,
}

/// What a [`Turn`] says.
pub ghost enum TurnView {
    Continue,
    Judge { updates: Seq<crate::metrics::MetricUpdateView> },
    Stop,
}

impl View for Turn {
    type V = TurnView;

    open spec fn view(&self) -> TurnView {
        match *self {
            Turn::Continue => TurnView::Continue,
            Turn::Judge { updates } => TurnView::Judge {
                updates: crate::metrics::updates_view(updates@),
            },
            Turn::Stop => TurnView::Stop,
        }
    }
}

/// What the engine waits to hear of before it takes anything else.
#[derive(Debug, Clone, Copy, PartialEq, Eq, Structural)]
pub enum Pending {
    Nothing,
    /// The record of a trade about to begin is being written; then the swap is sent.
    RecordBeforeSwap(EvmSwapRequest),
    /// The swap is being handed to the trader.
    SwapSending,
    /// The record of a confirmed swap is being written; then the order is placed.
    RecordConfirmation(OrderContext),
    /// The record of an order about to be placed is being written; then it is sent.
    RecordBeforeOrder { is_buy: bool, price: Double, size: Double },
    /// The order is being handed to the trader.
    OrderSending,
    /// The record of a fill is being written; then the fill is judged.
    RecordFill { total_size: Double },
    /// The record of a resting order is being written; then it is cancelled.
    RecordResting { oid: u64 },
    /// The cancellation is being handed to the trader.
    CancelSending,
    /// The record of a finished trade is being erased.
    Erasing,
    /// The record of a trade that needs people is being written.
    RecordRecovery,
}

/// What the engine asks for.
#[derive(Debug, Clone)]
pub enum Action {
    /// Nothing; wait for the next event.
    Wait,
    /// Write the record and report how that went.
    Save(RecoveryRecord),
    /// Erase the pair's record and report how that went.
    Erase,
    /// Hand the request to the swap trader and report whether it was taken.
    Swap(EvmSwapRequest),
    /// Hand the command to the order trader and report whether it was taken.
    Order(LiquidCommand),
}

/// What an [`Action`] asks for.
pub ghost enum ActionView {
    Wait,
    Save(crate::db::RecordView),
    Erase,
    Swap(EvmSwapRequest),
    Order(LiquidCommand),
}

impl View for Action {
    type V = ActionView;

    open spec fn view(&self) -> ActionView {
        match *self {
            Action::Wait => ActionView::Wait,
            Action::Save(record) => ActionView::Save(record@),
            Action::Erase => ActionView::Erase,
            Action::Swap(request) => ActionView::Swap(request),
            Action::Order(command) => ActionView::Order(command),
        }
    }
}

/// What is to be noted on the way.
#[derive(Debug, Clone)]
pub enum Effect {
    Metric(MetricUpdate),
    Price(PriceRecord),
    /// A trade began: its duration counts from here.
    CycleStarted,
    /// A trade ended: its duration is reported.
    CycleEnded,
}

/// What an [`Effect`] notes.
pub ghost enum EffectView {
    Metric(crate::metrics::MetricUpdateView),
    Price(crate::types::market::PriceRecordView),
    CycleStarted,
    CycleEnded,
}

impl View for Effect {
    type V = EffectView;

    open spec fn view(&self) -> EffectView {
        match *self {
            Effect::Metric(update) => EffectView::Metric(update@),
            Effect::Price(record) => EffectView::Price(record@),
            Effect::CycleStarted => EffectView::CycleStarted,
            Effect::CycleEnded => EffectView::CycleEnded,
        }
    }
}

/// One step: notes, then one request.
#[derive(Debug, Clone)]
pub struct Step {
    pub effects: Vec<Effect>,
    pub action: Action,
}

/// What a [`Step`] says.
pub ghost struct StepView {
    pub effects: Seq<EffectView>,
    pub action: ActionView,
}

/// What a list of effects notes.
pub open spec fn effects_view(effects: Seq<Effect>) -> Seq<EffectView> {
    Seq::new(effects.len(), |i: int| effects[i]@)
}

impl View for Step {
    type V = StepView;

    open spec fn view(&self) -> StepView {
        StepView { effects: effects_view(self.effects@), action: self.action@ }
    }
}

/// Metric updates as effects.
pub open spec fn metric_effects(updates: Seq<crate::metrics::MetricUpdateView>) -> Seq<
    EffectView,
> {
    Seq::new(updates.len(), |i: int| EffectView::Metric(updates[i]))
}

/// Adds an effect.
pub fn note(effects: &mut Vec<Effect>, effect: Effect)
    ensures
        effects_view(final(effects)@) == effects_view(old(effects)@).push(effect@),
{
    effects.push(effect);
    assert(effects_view(effects@) =~= effects_view(old(effects)@).push(effect@));
}

/// Adds metric updates.
pub fn note_all(effects: &mut Vec<Effect>, updates: Vec<MetricUpdate>)
    ensures
        effects_view(final(effects)@) == effects_view(old(effects)@) + metric_effects(
            crate::metrics::updates_view(updates@),
        ),
{
    let ghost views: Seq<crate::metrics::MetricUpdateView> = crate::metrics::updates_view(
        updates@,
    );
    let ghost start: Seq<EffectView> = effects_view(effects@);
    let mut rest: Vec<MetricUpdate> = updates;
    let mut i: usize = 0;
    let total: usize = rest.len();
    assert(effects_view(effects@) =~= start + metric_effects(views.take(0)));
    while i < total
        invariant
            i <= total == views.len(),
            rest@.len() == total - i,
            forall|j: int| 0 <= j < rest@.len() ==> #[trigger] rest@[j]@ == views[i + j],
            effects_view(effects@) == start + metric_effects(views.take(i as int)),
        decreases total - i,
    {
        let update: MetricUpdate = rest.remove(0);
        assert(update@ == views[i as int]);
        note(effects, Effect::Metric(update));
        proof {
            assert(start + metric_effects(views.take(i + 1)) =~= (start + metric_effects(
                views.take(i as int),
            )).push(EffectView::Metric(views[i as int])));
        }
        i = i + 1;
    }
    assert(views.take(i as int) == views);
}

} // verus!
