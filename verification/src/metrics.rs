//! Measurements.
//!
//! Each function turns an event into the updates of the exported metrics; what keeps the metrics
//! applies them.
use vstd::prelude::*;

use crate::double::Double;

verus! {

/// The exported metrics.
#[derive(Debug, Clone, Copy, PartialEq, Eq, Hash, Structural)]
pub enum Metric {
    /// The price difference in basis points, by direction and pair.
    PriceDiffBps,
    /// The profit threshold in basis points, by pair.
    MinProfitBps,
    /// Triggers that sent a trade, by direction and pair.
    ArbTriggerTotal,
    /// Triggers in dry-run mode, by direction and pair.
    ArbDryRunTriggerTotal,
    /// Swap attempts, by result and pair.
    EvmSwapTotal,
    /// Swaps given up because the fresh quote was below target, by pair.
    RequoteAbortedTotal,
    /// Tokens received from swaps, by direction and pair.
    EvmSwapAmountOutTotal,
    /// Times a pair stopped for manual recovery, by pair.
    ArbRecoveryRequiredTotal,
    /// Order attempts, by result and pair.
    LiquidOrderTotal,
    /// Filled size over all orders, by pair.
    LiquidFilledSizeTotal,
    /// Seconds from trigger to the end of a cycle, by pair.
    ArbExecutionDuration,
    /// Seconds spent waiting for the wallet, by pair.
    ExecutionGateWait,
    /// Milliseconds from server time to arrival, by pair.
    HlOrderbookLatencyMs,
    /// The best price on chain, by side and pair.
    EvmPriceUsdc,
    /// The order book price, by side and pair.
    HlPriceUsdc,
    /// The latest block seen; without labels.
    EvmLatestBlock,
}

impl Metric {
    /// The name under which it is exported.
    pub open spec fn exported_name(self) -> Seq<char> {
        match self {
            Metric::PriceDiffBps => "arb_price_diff_bps"@,
            Metric::MinProfitBps => "arb_min_profit_bps"@,
            Metric::ArbTriggerTotal => "arb_trigger_total"@,
            Metric::ArbDryRunTriggerTotal => "arb_dry_run_trigger_total"@,
            Metric::EvmSwapTotal => "evm_swap_total"@,
            Metric::RequoteAbortedTotal => "evm_requote_aborted_total"@,
            Metric::EvmSwapAmountOutTotal => "evm_swap_amount_out_total"@,
            Metric::ArbRecoveryRequiredTotal => "arb_recovery_required_total"@,
            Metric::LiquidOrderTotal => "liquid_order_total"@,
            Metric::LiquidFilledSizeTotal => "liquid_filled_size_total"@,
            Metric::ArbExecutionDuration => "arb_execution_duration_seconds"@,
            Metric::ExecutionGateWait => "evm_execution_gate_wait_seconds"@,
            Metric::HlOrderbookLatencyMs => "hl_orderbook_latency_ms"@,
            Metric::EvmPriceUsdc => "evm_price_usdc"@,
            Metric::HlPriceUsdc => "hl_price_usdc"@,
            Metric::EvmLatestBlock => "evm_latest_block_number"@,
        }
    }

    /// The name under which the metric is exported.
    pub fn name(self) -> (text: &'static str)
        ensures
            text@ == self.exported_name(),
    {
        match self {
            Metric::PriceDiffBps => "arb_price_diff_bps",
            Metric::MinProfitBps => "arb_min_profit_bps",
            Metric::ArbTriggerTotal => "arb_trigger_total",
            Metric::ArbDryRunTriggerTotal => "arb_dry_run_trigger_total",
            Metric::EvmSwapTotal => "evm_swap_total",
            Metric::RequoteAbortedTotal => "evm_requote_aborted_total",
            Metric::EvmSwapAmountOutTotal => "evm_swap_amount_out_total",
            Metric::ArbRecoveryRequiredTotal => "arb_recovery_required_total",
            Metric::LiquidOrderTotal => "liquid_order_total",
            Metric::LiquidFilledSizeTotal => "liquid_filled_size_total",
            Metric::ArbExecutionDuration => "arb_execution_duration_seconds",
            Metric::ExecutionGateWait => "evm_execution_gate_wait_seconds",
            Metric::HlOrderbookLatencyMs => "hl_orderbook_latency_ms",
            Metric::EvmPriceUsdc => "evm_price_usdc",
            Metric::HlPriceUsdc => "hl_price_usdc",
            Metric::EvmLatestBlock => "evm_latest_block_number",
        }
    }
}

/// How a metric changes.
#[derive(Debug, Clone, Copy, PartialEq, Eq, Structural)]
pub enum Change {
    Increment,
    IncrementBy(Double),
    SetTo(Double),
    Observe(Double),
}

/// One change of one metric under given label values.
#[derive(Debug, Clone)]
pub struct MetricUpdate {
    pub metric: Metric,
    pub labels: Vec<String>,
    pub change: Change,
}

/// What a [`MetricUpdate`] says.
#[verifier::ext_equal]
pub ghost struct MetricUpdateView {
    pub metric: Metric,
    pub labels: Seq<Seq<char>>,
    pub change: Change,
}

impl View for MetricUpdate {
    type V = MetricUpdateView;

    open spec fn view(&self) -> MetricUpdateView {
        MetricUpdateView {
            metric: self.metric,
            labels: Seq::new(self.labels@.len(), |i: int| self.labels@[i]@),
            change: self.change,
        }
    }
}

/// What a list of updates says.
pub open spec fn updates_view(updates: Seq<MetricUpdate>) -> Seq<MetricUpdateView> {
    Seq::new(updates.len(), |i: int| updates[i]@)
}

/// A change of a metric with one label.
pub open spec fn by_one(metric: Metric, label: Seq<char>, change: Change) -> MetricUpdateView {
    MetricUpdateView { metric, labels: seq![label], change }
}

/// A change of a metric with two labels.
pub open spec fn by_two(
    metric: Metric,
    first: Seq<char>,
    second: Seq<char>,
    change: Change,
) -> MetricUpdateView {
    MetricUpdateView { metric, labels: seq![first, second], change }
}

fn labelled(metric: Metric, label: &str, change: Change) -> (update: MetricUpdate)
    ensures
        update@ == by_one(metric, label@, change),
{
    let mut labels: Vec<String> = Vec::new();
    labels.push(label.to_owned());
    let update: MetricUpdate = MetricUpdate { metric, labels, change };
    assert(update@.labels =~= seq![label@]);
    update
}

fn labelled_twice(metric: Metric, first: &str, second: &str, change: Change) -> (update:
    MetricUpdate)
    ensures
        update@ == by_two(metric, first@, second@, change),
{
    let mut labels: Vec<String> = Vec::new();
    labels.push(first.to_owned());
    labels.push(second.to_owned());
    let update: MetricUpdate = MetricUpdate { metric, labels, change };
    assert(update@.labels =~= seq![first@, second@]);
    update
}

fn two(a: MetricUpdate, b: MetricUpdate) -> (updates: Vec<MetricUpdate>)
    ensures
        updates_view(updates@) == seq![a@, b@],
{
    let mut updates: Vec<MetricUpdate> = Vec::new();
    updates.push(a);
    updates.push(b);
    assert(updates_view(updates@) =~= seq![a@, b@]);
    updates
}

/// The metric that is exported from the start, before its first update.
pub fn init() -> (metric: Metric)
    ensures
        metric == Metric::EvmLatestBlock,
{
    Metric::EvmLatestBlock
}

/// Records the price differences in both directions and the threshold.
pub fn record_price_diff(pair: &str, buy_diff: Double, sell_diff: Double, min_bps: Double) -> (updates:
    Vec<MetricUpdate>)
    ensures
        updates_view(updates@) == seq![
            by_two(Metric::PriceDiffBps, "buy"@, pair@, Change::SetTo(buy_diff)),
            by_two(Metric::PriceDiffBps, "sell"@, pair@, Change::SetTo(sell_diff)),
            by_one(Metric::MinProfitBps, pair@, Change::SetTo(min_bps)),
        ],
{
    let mut updates: Vec<MetricUpdate> = two(
        labelled_twice(Metric::PriceDiffBps, "buy", pair, Change::SetTo(buy_diff)),
        labelled_twice(Metric::PriceDiffBps, "sell", pair, Change::SetTo(sell_diff)),
    );
    let ghost before: Seq<MetricUpdateView> = updates_view(updates@);
    updates.push(labelled(Metric::MinProfitBps, pair, Change::SetTo(min_bps)));
    assert(updates_view(updates@) =~= before.push(updates@[2]@));
    updates
}

/// Records a trigger that sent a trade.
pub fn record_arb_triggered(pair: &str, direction: &str) -> (update: MetricUpdate)
    ensures
        update@ == by_two(Metric::ArbTriggerTotal, direction@, pair@, Change::Increment),
{
    labelled_twice(Metric::ArbTriggerTotal, direction, pair, Change::Increment)
}

/// Records a trigger in dry-run mode.
pub fn record_arb_dry_run_triggered(pair: &str, direction: &str) -> (update: MetricUpdate)
    ensures
        update@ == by_two(Metric::ArbDryRunTriggerTotal, direction@, pair@, Change::Increment),
{
    labelled_twice(Metric::ArbDryRunTriggerTotal, direction, pair, Change::Increment)
}

/// Records a swap and what it brought.
pub fn record_evm_swap_success(pair: &str, direction: &str, amount_out: Double) -> (updates: Vec<MetricUpdate>)
    ensures
        updates_view(updates@) == seq![
            by_two(Metric::EvmSwapTotal, "success"@, pair@, Change::Increment),
            by_two(Metric::EvmSwapAmountOutTotal, direction@, pair@, Change::IncrementBy(amount_out)),
        ],
{
    two(
        labelled_twice(Metric::EvmSwapTotal, "success", pair, Change::Increment),
        labelled_twice(Metric::EvmSwapAmountOutTotal, direction, pair, Change::IncrementBy(amount_out)),
    )
}

/// Records a swap that was sent and failed.
pub fn record_evm_swap_failed(pair: &str) -> (update: MetricUpdate)
    ensures
        update@ == by_two(Metric::EvmSwapTotal, "failed"@, pair@, Change::Increment),
{
    labelled_twice(Metric::EvmSwapTotal, "failed", pair, Change::Increment)
}

/// Records a swap given up before anything was sent.
pub fn record_evm_swap_aborted(pair: &str) -> (update: MetricUpdate)
    ensures
        update@ == by_two(Metric::EvmSwapTotal, "aborted"@, pair@, Change::Increment),
{
    labelled_twice(Metric::EvmSwapTotal, "aborted", pair, Change::Increment)
}

/// Records a swap whose outcome is not known.
pub fn record_evm_swap_unknown(pair: &str) -> (update: MetricUpdate)
    ensures
        update@ == by_two(Metric::EvmSwapTotal, "unknown"@, pair@, Change::Increment),
{
    labelled_twice(Metric::EvmSwapTotal, "unknown", pair, Change::Increment)
}

/// Records that a pair stopped for manual recovery.
pub fn record_arb_recovery_required(pair: &str) -> (update: MetricUpdate)
    ensures
        update@ == by_one(Metric::ArbRecoveryRequiredTotal, pair@, Change::Increment),
{
    labelled(Metric::ArbRecoveryRequiredTotal, pair, Change::Increment)
}

/// Records a swap given up because the fresh quote was below target.
pub fn record_requote_aborted(pair: &str) -> (update: MetricUpdate)
    ensures
        update@ == by_one(Metric::RequoteAbortedTotal, pair@, Change::Increment),
{
    labelled(Metric::RequoteAbortedTotal, pair, Change::Increment)
}

/// Records a filled order and its size.
pub fn record_liquid_order_filled(pair: &str, total_size: Double) -> (updates: Vec<MetricUpdate>)
    ensures
        updates_view(updates@) == seq![
            by_two(Metric::LiquidOrderTotal, "filled"@, pair@, Change::Increment),
            by_one(Metric::LiquidFilledSizeTotal, pair@, Change::IncrementBy(total_size)),
        ],
{
    two(
        labelled_twice(Metric::LiquidOrderTotal, "filled", pair, Change::Increment),
        labelled(Metric::LiquidFilledSizeTotal, pair, Change::IncrementBy(total_size)),
    )
}

/// Records an order that rests on the book.
pub fn record_liquid_order_resting(pair: &str) -> (update: MetricUpdate)
    ensures
        update@ == by_two(Metric::LiquidOrderTotal, "resting"@, pair@, Change::Increment),
{
    labelled_twice(Metric::LiquidOrderTotal, "resting", pair, Change::Increment)
}

/// Records an order that failed.
pub fn record_liquid_order_failed(pair: &str) -> (update: MetricUpdate)
    ensures
        update@ == by_two(Metric::LiquidOrderTotal, "failed"@, pair@, Change::Increment),
{
    labelled_twice(Metric::LiquidOrderTotal, "failed", pair, Change::Increment)
}

/// Records how long a swap waited for the wallet.
pub fn record_execution_gate_wait(pair: &str, secs: Double) -> (update: MetricUpdate)
    ensures
        update@ == by_one(Metric::ExecutionGateWait, pair@, Change::Observe(secs)),
{
    labelled(Metric::ExecutionGateWait, pair, Change::Observe(secs))
}

/// Records how long a cycle took.
pub fn record_arb_execution_duration(pair: &str, secs: Double) -> (update: MetricUpdate)
    ensures
        update@ == by_one(Metric::ArbExecutionDuration, pair@, Change::Observe(secs)),
{
    labelled(Metric::ArbExecutionDuration, pair, Change::Observe(secs))
}

/// Records how late an order book arrived.
pub fn record_hl_orderbook_latency(pair: &str, ms: Double) -> (update: MetricUpdate)
    ensures
        update@ == by_one(Metric::HlOrderbookLatencyMs, pair@, Change::SetTo(ms)),
{
    labelled(Metric::HlOrderbookLatencyMs, pair, Change::SetTo(ms))
}

/// Records the best prices on chain.
pub fn record_evm_price(pair: &str, buy_price: Double, sell_price: Double) -> (updates: Vec<MetricUpdate>)
    ensures
        updates_view(updates@) == seq![
            by_two(Metric::EvmPriceUsdc, "buy"@, pair@, Change::SetTo(buy_price)),
            by_two(Metric::EvmPriceUsdc, "sell"@, pair@, Change::SetTo(sell_price)),
        ],
{
    two(
        labelled_twice(Metric::EvmPriceUsdc, "buy", pair, Change::SetTo(buy_price)),
        labelled_twice(Metric::EvmPriceUsdc, "sell", pair, Change::SetTo(sell_price)),
    )
}

/// Records the order book prices.
pub fn record_hl_price(pair: &str, ask: Double, bid: Double) -> (updates: Vec<MetricUpdate>)
    ensures
        updates_view(updates@) == seq![
            by_two(Metric::HlPriceUsdc, "ask"@, pair@, Change::SetTo(ask)),
            by_two(Metric::HlPriceUsdc, "bid"@, pair@, Change::SetTo(bid)),
        ],
{
    two(
        labelled_twice(Metric::HlPriceUsdc, "ask", pair, Change::SetTo(ask)),
        labelled_twice(Metric::HlPriceUsdc, "bid", pair, Change::SetTo(bid)),
    )
}

/// Records the latest block seen.
pub fn record_evm_block(block_number: u64) -> (update: MetricUpdate)
    ensures
        update@ == (MetricUpdateView {
            metric: Metric::EvmLatestBlock,
            labels: Seq::empty(),
            change: Change::SetTo(Double::whole(false, block_number as nat)),
        }),
{
    let update: MetricUpdate = MetricUpdate {
        metric: Metric::EvmLatestBlock,
        labels: Vec::new(),
        change: Change::SetTo(Double::from_integer(block_number as u128)),
    };
    assert(update@.labels =~= Seq::<Seq<char>>::empty());
    update
}

/// Labels stand in the order in which they are given, the pair last.
pub proof fn law_labels_stand_in_order(
    metric: Metric,
    first: Seq<char>,
    pair: Seq<char>,
    change: Change,
)
    ensures
        by_one(metric, pair, change).labels == seq![pair],
        by_two(metric, first, pair, change).labels == seq![first, pair],
        by_one(metric, pair, change).metric == metric,
        by_two(metric, first, pair, change).metric == metric,
        by_one(metric, pair, change).change == change,
        by_two(metric, first, pair, change).change == change,
{
}

} // verus!
