use spread_circuit::double::Double;
use spread_circuit::metrics::{self, Change, Metric, MetricUpdate};

fn d(x: f64) -> Double {
    Double { bits: x.to_bits() }
}

fn shows(update: &MetricUpdate, metric: Metric, labels: &[&str], change: Change) -> bool {
    update.metric == metric && update.labels == labels && update.change == change
}

#[test]
fn the_block_number_is_exported_from_the_start() {
    assert_eq!(metrics::init(), Metric::EvmLatestBlock);
    assert_eq!(Metric::EvmLatestBlock.name(), "evm_latest_block_number");
}

#[test]
fn metrics_keep_their_names() {
    assert_eq!(Metric::EvmSwapTotal.name(), "evm_swap_total");
    assert_eq!(Metric::ArbRecoveryRequiredTotal.name(), "arb_recovery_required_total");
    assert_eq!(Metric::HlOrderbookLatencyMs.name(), "hl_orderbook_latency_ms");
}

#[test]
fn price_differences_set_three_gauges() {
    let updates = metrics::record_price_diff("PURR", d(1.0), d(2.0), d(3.0));
    assert_eq!(updates.len(), 3);
    assert!(shows(&updates[0], Metric::PriceDiffBps, &["buy", "PURR"], Change::SetTo(d(1.0))));
    assert!(shows(&updates[1], Metric::PriceDiffBps, &["sell", "PURR"], Change::SetTo(d(2.0))));
    assert!(shows(&updates[2], Metric::MinProfitBps, &["PURR"], Change::SetTo(d(3.0))));
}

#[test]
fn triggers_are_counted_by_direction() {
    let live = metrics::record_arb_triggered("PURR", "buy_diff");
    assert!(shows(&live, Metric::ArbTriggerTotal, &["buy_diff", "PURR"], Change::Increment));
    let dry = metrics::record_arb_dry_run_triggered("PURR", "sell_diff");
    assert!(shows(&dry, Metric::ArbDryRunTriggerTotal, &["sell_diff", "PURR"], Change::Increment));
}

#[test]
fn swaps_are_counted_by_result() {
    let updates = metrics::record_evm_swap_success("PURR", "buy_diff", d(10.5));
    assert!(shows(&updates[0], Metric::EvmSwapTotal, &["success", "PURR"], Change::Increment));
    assert!(shows(
        &updates[1],
        Metric::EvmSwapAmountOutTotal,
        &["buy_diff", "PURR"],
        Change::IncrementBy(d(10.5))
    ));
    for (update, result) in [
        (metrics::record_evm_swap_failed("PURR"), "failed"),
        (metrics::record_evm_swap_aborted("PURR"), "aborted"),
        (metrics::record_evm_swap_unknown("PURR"), "unknown"),
    ] {
        assert!(shows(&update, Metric::EvmSwapTotal, &[result, "PURR"], Change::Increment));
    }
    let requote = metrics::record_requote_aborted("PURR");
    assert!(shows(&requote, Metric::RequoteAbortedTotal, &["PURR"], Change::Increment));
    let recovery = metrics::record_arb_recovery_required("PURR");
    assert!(shows(&recovery, Metric::ArbRecoveryRequiredTotal, &["PURR"], Change::Increment));
}

#[test]
fn orders_are_counted_by_result() {
    let updates = metrics::record_liquid_order_filled("PURR", d(7.0));
    assert!(shows(&updates[0], Metric::LiquidOrderTotal, &["filled", "PURR"], Change::Increment));
    assert!(shows(&updates[1], Metric::LiquidFilledSizeTotal, &["PURR"], Change::IncrementBy(d(7.0))));
    let resting = metrics::record_liquid_order_resting("PURR");
    assert!(shows(&resting, Metric::LiquidOrderTotal, &["resting", "PURR"], Change::Increment));
    let failed = metrics::record_liquid_order_failed("PURR");
    assert!(shows(&failed, Metric::LiquidOrderTotal, &["failed", "PURR"], Change::Increment));
}

#[test]
fn durations_and_prices() {
    let wait = metrics::record_execution_gate_wait("PURR", d(0.25));
    assert!(shows(&wait, Metric::ExecutionGateWait, &["PURR"], Change::Observe(d(0.25))));
    let cycle = metrics::record_arb_execution_duration("PURR", d(1.25));
    assert!(shows(&cycle, Metric::ArbExecutionDuration, &["PURR"], Change::Observe(d(1.25))));
    let late = metrics::record_hl_orderbook_latency("PURR", d(12.0));
    assert!(shows(&late, Metric::HlOrderbookLatencyMs, &["PURR"], Change::SetTo(d(12.0))));
    let evm = metrics::record_evm_price("PURR", d(1.0), d(2.0));
    assert!(shows(&evm[0], Metric::EvmPriceUsdc, &["buy", "PURR"], Change::SetTo(d(1.0))));
    assert!(shows(&evm[1], Metric::EvmPriceUsdc, &["sell", "PURR"], Change::SetTo(d(2.0))));
    let hl = metrics::record_hl_price("PURR", d(3.0), d(4.0));
    assert!(shows(&hl[0], Metric::HlPriceUsdc, &["ask", "PURR"], Change::SetTo(d(3.0))));
    assert!(shows(&hl[1], Metric::HlPriceUsdc, &["bid", "PURR"], Change::SetTo(d(4.0))));
    let block = metrics::record_evm_block(12_345_678);
    assert!(shows(&block, Metric::EvmLatestBlock, &[], Change::SetTo(d(12345678.0))));
}
