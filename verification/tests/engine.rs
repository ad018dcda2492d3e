use std::sync::Arc;

use spread_circuit::actors::arb_engine::{
    Action, ArbEngine, ArbState, Effect, EngineEvent, Step, Turn,
};
use spread_circuit::actors::pricing::{evaluate_opportunities, EvaluationStep};
use spread_circuit::config::{Config, PairConfig};
use spread_circuit::db::RecoveryRecord;
use spread_circuit::double::Double;
use spread_circuit::liquid::client::LiquidMarketRules;
use spread_circuit::metrics::{Change, Metric};
use spread_circuit::types::commands::{EvmSwapRequest, LiquidCommand, TradeResult};
use spread_circuit::types::market::{DexName, EvmPrice, OrderBook};

fn d(x: f64) -> Double {
    Double { bits: x.to_bits() }
}

fn f(x: Double) -> f64 {
    f64::from_bits(x.bits)
}

fn config(dry_run: bool) -> Config {
    Config {
        private_key: "key".to_owned(),
        https_rpc: "https://rpc.example/secret".to_owned(),
        wss_rpc: "wss://ws.example/token".to_owned(),
        wss_api: "wss://api.example/ws".to_owned(),
        min_out_bps: d(30.0),
        limit_slippage: d(21.0),
        liquid_fee_bps: d(1.0),
        gas_cost_usdc: d(0.02),
        profit_buffer_bps: d(12.0),
        hyperswap_router01: String::new(),
        hyperswap_quotev2: String::new(),
        prjx_quotev2: String::new(),
        prjx_routerv2: String::new(),
        kitten_quoter: String::new(),
        kitten_router: String::new(),
        dry_run,
        metrics_port: 9090,
        metrics_host: "127.0.0.1".to_owned(),
        log_dir: "logs".to_owned(),
        db_path: "data.db".to_owned(),
        db_max_price_rows: 1000,
        pairs: Vec::new(),
    }
}

fn pair(enable_sell_arb: bool) -> PairConfig {
    PairConfig {
        token0: String::new(),
        decimals0: 6,
        token1: String::new(),
        decimals1: 18,
        symbol: "HYPE".to_owned(),
        spot_coin: "HYPE".to_owned(),
        order_size_token1: d(10.0),
        ask_diff_percent: d(40.0),
        bid_diff_percent: d(40.0),
        min_out_bps: d(30.0),
        limit_slippage: d(21.0),
        fee_tier: 3000,
        enable_sell_arb,
        use_hyperswap: true,
        use_kitten: true,
    }
}

fn rules() -> LiquidMarketRules {
    LiquidMarketRules {
        asset: "@107".to_owned(),
        base_token: "HYPE".to_owned(),
        quote_token: "USDC".to_owned(),
        size_decimals: 2,
    }
}

fn engine(dry_run: bool, enable_sell_arb: bool) -> ArbEngine {
    ArbEngine::new(Arc::new(config(dry_run)), Arc::new(pair(enable_sell_arb)), rules())
}

fn price(buy: f64, sell: f64, at: u64) -> EvmPrice {
    EvmPrice {
        buy_price: d(buy),
        sell_price: d(sell),
        block_number: 1,
        received_at: at,
        sell_dex: DexName::HyperSwap,
        buy_dex: DexName::Kitten,
        pair_id: "HYPE".to_owned(),
    }
}

fn book(bid: f64, ask: f64, at: u64) -> OrderBook {
    OrderBook { bid: d(bid), ask: d(ask), created_at: 0, received_at: at, symbol: "HYPE".to_owned() }
}

fn feed(engine: &mut ArbEngine, price: EvmPrice, book: OrderBook) {
    assert!(matches!(engine.accept(EngineEvent::Price(price)), Turn::Judge { .. }));
    assert!(matches!(engine.accept(EngineEvent::Book(book)), Turn::Judge { .. }));
}

fn judge(engine: &mut ArbEngine, now: u64) -> Step {
    engine.try_arb(now)
}

fn answer(engine: &mut ArbEngine, outcome: Result<(), &str>, now: u64) -> Step {
    engine.resume(outcome.map_err(str::to_owned), now)
}

fn tell(engine: &mut ArbEngine, result: TradeResult, now: u64) -> Step {
    assert!(engine.is_settled());
    engine.handle_trade_result(result, now)
}

fn saved(step: &Step) -> RecoveryRecord {
    match &step.action {
        Action::Save(record) => record.clone(),
        other => panic!("{other:?}"),
    }
}

/// An engine whose swap is out, selling token1 on chain.
fn swapping() -> (ArbEngine, EvmSwapRequest) {
    let mut engine = engine(false, false);
    feed(&mut engine, price(42.9, 42.8, 1000), book(41.9, 42.0, 1000));
    let step = judge(&mut engine, 1500);
    assert_eq!(saved(&step).stage, "evm_pending");
    let request = match answer(&mut engine, Ok(()), 1500).action {
        Action::Swap(request) => request,
        other => panic!("{other:?}"),
    };
    assert!(matches!(answer(&mut engine, Ok(()), 1500).action, Action::Wait));
    assert_eq!(engine.state(), ArbState::EvmSwapping);
    (engine, request)
}

fn success(amount: f64) -> TradeResult {
    TradeResult::EvmSwapSuccess { amount_out: d(amount), tx_hash: "0xabc".to_owned() }
}

/// An engine whose order is out.
fn ordering() -> (ArbEngine, LiquidCommand) {
    let (mut engine, _) = swapping();
    let step = tell(&mut engine, success(428.0), 2000);
    assert_eq!(saved(&step).stage, "evm_confirmed");
    let step = answer(&mut engine, Ok(()), 2000);
    assert_eq!(saved(&step).stage, "liquid_pending");
    let command = match answer(&mut engine, Ok(()), 2000).action {
        Action::Order(command) => command,
        other => panic!("{other:?}"),
    };
    assert!(matches!(answer(&mut engine, Ok(()), 2000).action, Action::Wait));
    assert_eq!(engine.state(), ArbState::LiquidOrdering);
    (engine, command)
}

#[test]
fn opportunities_are_judged_as_on_the_machine() {
    let (evm, ob) = (price(42.9, 42.8, 1000), book(41.9, 42.0, 1000));
    let (buy, sell) =
        evaluate_opportunities(&config(false), &pair(true), &rules(), &evm, &ob).unwrap();
    let bps = 10000.0;
    let worst_buy = (42.0 * (1.0 + 21.0 / bps) * 1000.0 - 1e-10f64).ceil() / 1000.0;
    let worst_sell = (41.9 * (1.0 - 21.0 / bps) * 1000.0 + 1e-10f64).floor() / 1000.0;
    let buy_target = 10.0 * worst_buy * (1.0 + (1.0 + 12.0) / bps) + 0.02;
    assert_eq!(f(buy.diff_bps), (42.8 - 42.0) / 42.8 * bps);
    assert_eq!(f(buy.target_amount), buy_target);
    let least = buy_target / 10.0;
    assert_eq!(f(buy.minimum_diff_bps), 40f64.max((least - 42.0) / least * bps));
    assert_eq!(f(buy.amount_in), 10.0);
    assert_eq!(buy.dex, DexName::HyperSwap);
    assert!(buy.economically_safe && buy.is_triggered());
    let amount_in = 10.0 * 42.9;
    let sell_target = (amount_in * (1.0 + 12.0 / bps) + 0.02) / (worst_sell * (1.0 - 1.0 / bps));
    assert_eq!(f(sell.amount_in), amount_in);
    assert_eq!(f(sell.target_amount), sell_target);
    assert_eq!(f(sell.diff_bps), (41.9 - 42.9) / 41.9 * bps);
    let most = (10.0 * worst_sell * (1.0 - 1.0 / bps) - 0.02) / (10.0 * (1.0 + 12.0 / bps));
    assert_eq!(f(sell.minimum_diff_bps), 40f64.max((41.9 - most) / 41.9 * bps));
    assert!(!sell.economically_safe && !sell.is_triggered());
}

#[test]
fn prices_that_cannot_be_judged_are_named() {
    let judge = |evm: EvmPrice, ob: OrderBook, pair: PairConfig, rules: LiquidMarketRules| {
        evaluate_opportunities(&config(false), &pair, &rules, &evm, &ob)
            .err()
            .unwrap()
            .step
    };
    let good = || book(41.9, 42.0, 1);
    assert_eq!(judge(price(0.0, 1.0, 1), good(), pair(true), rules()), EvaluationStep::Prices);
    assert_eq!(judge(price(1.0, 1.0, 1), book(2.0, 1.0, 1), pair(true), rules()), EvaluationStep::Prices);
    let mut slippage = pair(true);
    slippage.limit_slippage = d(-1.0);
    assert_eq!(judge(price(1.0, 1.0, 1), good(), slippage, rules()), EvaluationStep::BuyWorstPrice);
    let mut fine = rules();
    fine.size_decimals = 9;
    assert_eq!(judge(price(1.0, 1.0, 1), good(), pair(true), fine), EvaluationStep::BuyWorstPrice);
    assert_eq!(
        judge(price(f64::MAX, 1.0, 1), good(), pair(true), rules()),
        EvaluationStep::SellFloor
    );
}

#[test]
fn a_trade_runs_through_both_legs() {
    let (mut engine, command) = ordering();
    let (price, size) = match command {
        LiquidCommand::Order { is_buy, price, size } => {
            assert!(is_buy);
            (f(price), f(size))
        }
        other => panic!("{other:?}"),
    };
    assert_eq!(size, 10.0);
    assert_eq!(price, (42.0 * (1.0 + 21.0 / 10000.0) * 1000.0 - 1e-10f64).ceil() / 1000.0);
    let filled = TradeResult::LiquidFilled { oid: 5, avg_price: d(42.0), total_size: d(10.0) };
    let step = tell(&mut engine, filled, 3000);
    let record = saved(&step);
    assert_eq!((record.stage.as_str(), record.liquid_oid), ("liquid_filled", Some(5)));
    assert_eq!(record.evm_tx_hash.as_deref(), Some("0xabc"));
    assert!(matches!(answer(&mut engine, Ok(()), 3000).action, Action::Erase));
    let step = answer(&mut engine, Ok(()), 3000);
    assert!(matches!(step.action, Action::Wait));
    assert!(matches!(step.effects.as_slice(), [Effect::CycleEnded]));
    assert_eq!(engine.state(), ArbState::Idle);
    assert!(engine.is_settled());
}

#[test]
fn the_swap_request_is_the_triggered_plan() {
    let (_, request) = swapping();
    assert!(!request.is_buy);
    assert_eq!(f(request.amount_in), 10.0);
    assert_eq!(request.dex, DexName::HyperSwap);
    let worst = (42.0 * (1.0 + 21.0 / 10000.0) * 1000.0 - 1e-10f64).ceil() / 1000.0;
    assert_eq!(f(request.target_amount), 10.0 * worst * (1.0 + 13.0 / 10000.0) + 0.02);
}

#[test]
fn judging_is_noted() {
    let mut engine = engine(false, false);
    feed(&mut engine, price(42.9, 42.8, 1000), book(41.9, 42.0, 1000));
    let step = judge(&mut engine, 1000);
    assert_eq!(step.effects.len(), 8);
    let metric = |i: usize| match &step.effects[i] {
        Effect::Metric(update) => update.metric,
        other => panic!("{other:?}"),
    };
    assert_eq!(metric(0), Metric::PriceDiffBps);
    assert_eq!(metric(2), Metric::MinProfitBps);
    assert_eq!(metric(3), Metric::HlPriceUsdc);
    match &step.effects[5] {
        Effect::Price(record) => assert_eq!((record.pair.as_str(), f(record.liquid_ask)), ("HYPE", 42.0)),
        other => panic!("{other:?}"),
    }
    assert_eq!(metric(6), Metric::ArbTriggerTotal);
    assert!(matches!(step.effects[7], Effect::CycleStarted));
    assert_eq!(saved(&step).direction, "buy_diff");
    assert_eq!(saved(&step).reason, "等待 EVM 执行");
}

#[test]
fn a_dry_run_notes_and_sends_nothing() {
    let mut engine = engine(true, false);
    feed(&mut engine, price(42.9, 42.8, 1000), book(41.9, 42.0, 1000));
    let step = judge(&mut engine, 1000);
    assert!(matches!(step.action, Action::Wait));
    match &step.effects[6] {
        Effect::Metric(update) => {
            assert_eq!(update.metric, Metric::ArbDryRunTriggerTotal);
            assert_eq!(update.labels, ["buy_diff", "HYPE"]);
        }
        other => panic!("{other:?}"),
    }
    assert_eq!(engine.state(), ArbState::Idle);
}

#[test]
fn nothing_begins_without_fresh_data_of_both_markets() {
    let quiet = |step: Step| matches!(step.action, Action::Wait) && step.effects.is_empty();
    let mut only_price = engine(false, false);
    only_price.accept(EngineEvent::Price(price(42.9, 42.8, 1000)));
    assert!(quiet(judge(&mut only_price, 1000)));
    for (evm_at, book_at, now) in [(1000, 1000, 6001), (1000, 4001, 4001), (1000, 1001, 1000)] {
        let mut stale = engine(false, false);
        feed(&mut stale, price(42.9, 42.8, evm_at), book(41.9, 42.0, book_at));
        assert!(quiet(judge(&mut stale, now)));
    }
    let mut lost = engine(false, false);
    feed(&mut lost, price(42.9, 42.8, 1000), book(41.9, 42.0, 1000));
    assert!(matches!(lost.accept(EngineEvent::BooksLost), Turn::Continue));
    assert!(quiet(judge(&mut lost, 1000)));
    let mut no_gap = engine(false, false);
    feed(&mut no_gap, price(42.1, 42.0, 1000), book(41.9, 42.0, 1000));
    assert!(matches!(judge(&mut no_gap, 1000).action, Action::Wait));
}

#[test]
fn data_of_other_pairs_are_left_alone() {
    let mut engine = engine(false, false);
    let mut other = price(42.9, 42.8, 1000);
    other.pair_id = "PURR".to_owned();
    assert!(matches!(engine.accept(EngineEvent::Price(other)), Turn::Continue));
    let mut strange = book(41.9, 42.0, 1000);
    strange.symbol = "hype".to_owned();
    assert!(matches!(engine.accept(EngineEvent::Book(strange)), Turn::Continue));
    assert!(matches!(judge(&mut engine, 1000).action, Action::Wait));
    assert!(judge(&mut engine, 1000).effects.is_empty());
}

#[test]
fn latency_is_noted_where_the_server_gave_its_time() {
    let mut engine = engine(false, false);
    let mut late = book(41.9, 42.0, 1000);
    late.created_at = 900;
    match engine.accept(EngineEvent::Book(late)) {
        Turn::Judge { updates } => {
            assert_eq!(updates.len(), 1);
            assert_eq!(updates[0].metric, Metric::HlOrderbookLatencyMs);
            assert_eq!(updates[0].change, Change::SetTo(d(100.0)));
        }
        other => panic!("{other:?}"),
    }
    let mut early = book(41.9, 42.0, 1000);
    early.created_at = 2000;
    match engine.accept(EngineEvent::Book(early)) {
        Turn::Judge { updates } => assert_eq!(updates[0].change, Change::SetTo(d(0.0))),
        other => panic!("{other:?}"),
    }
}

#[test]
fn a_trade_that_cannot_be_recorded_is_not_sent() {
    let mut engine = engine(false, false);
    feed(&mut engine, price(42.9, 42.8, 1000), book(41.9, 42.0, 1000));
    judge(&mut engine, 1000);
    let step = answer(&mut engine, Err("disk full"), 1000);
    let record = saved(&step);
    assert_eq!(record.stage, "recovery_required");
    assert_eq!(record.reason, "无法持久化 EVM 待执行状态: disk full");
    assert_eq!(record.direction, "buy_diff");
    assert!(matches!(step.effects[0], Effect::CycleEnded));
    assert_eq!(engine.state(), ArbState::RecoveryRequired);
    answer(&mut engine, Err("disk full"), 1000);
    assert!(engine.is_settled());
    assert!(matches!(judge(&mut engine, 1000).action, Action::Wait));
}

#[test]
fn a_request_that_was_not_taken_ends_the_trade() {
    let mut engine = engine(false, false);
    feed(&mut engine, price(42.9, 42.8, 1000), book(41.9, 42.0, 1000));
    judge(&mut engine, 1000);
    assert!(matches!(answer(&mut engine, Ok(()), 1000).action, Action::Swap(_)));
    assert!(matches!(answer(&mut engine, Err("closed"), 1000).action, Action::Erase));
    let step = answer(&mut engine, Err("locked"), 1000);
    assert_eq!(saved(&step).reason, "清除已完成交易的恢复记录失败: locked");
}

#[test]
fn an_aborted_swap_leaves_no_trace() {
    let (mut engine, _) = swapping();
    let step = tell(&mut engine, TradeResult::EvmSwapAborted { reason: "x".to_owned() }, 2000);
    assert!(matches!(step.action, Action::Erase));
    answer(&mut engine, Ok(()), 2000);
    assert_eq!(engine.state(), ArbState::Idle);
    // A new trade starts with a clean record.
    let record = saved(&judge(&mut engine, 2000));
    assert_eq!((record.evm_tx_hash, record.liquid_oid), (None, None));
}

#[test]
fn doubtful_swaps_stop_the_pair() {
    for result in [
        TradeResult::EvmSwapFailed { reason: "at https://rpc.example/secret".to_owned() },
        TradeResult::EvmSwapUnknown { reason: "at https://rpc.example/secret".to_owned() },
    ] {
        let (mut engine, _) = swapping();
        let step = tell(&mut engine, result, 2000);
        assert_eq!(saved(&step).reason, "at https://rpc.example/***");
        assert_eq!(engine.state(), ArbState::RecoveryRequired);
    }
}

#[test]
fn an_unknown_amount_is_hedged_only_where_it_does_not_matter() {
    let unknown = || TradeResult::EvmSwapConfirmedAmountUnknown { tx_hash: "0xdef".to_owned() };
    // token1 was sold: the size is known.
    let (mut engine, _) = swapping();
    let record = saved(&tell(&mut engine, unknown(), 2000));
    assert_eq!(record.stage, "evm_confirmed_amount_unknown");
    assert_eq!(record.evm_tx_hash.as_deref(), Some("0xdef"));
    assert_eq!(saved(&answer(&mut engine, Ok(()), 2000)).reason, "TransferEventMissing");
    // token1 was bought: nothing is guessed.
    let mut buying = buying();
    tell(&mut buying, unknown(), 2000);
    let record = saved(&answer(&mut buying, Ok(()), 2000));
    assert_eq!(record.stage, "recovery_required");
    assert_eq!(record.reason, "TransferEventMissing: sell_diff 缺少 EVM amount_out，不能猜测对冲数量");
}

/// An engine whose swap is out, buying token1 on chain.
fn buying() -> ArbEngine {
    let mut engine = engine(false, true);
    feed(&mut engine, price(41.0, 40.9, 1000), book(42.0, 42.1, 1000));
    let step = judge(&mut engine, 1000);
    assert_eq!(saved(&step).direction, "sell_diff");
    match answer(&mut engine, Ok(()), 1000).action {
        Action::Swap(request) => {
            assert!(request.is_buy);
            assert_eq!(request.dex, DexName::Kitten);
            assert_eq!(f(request.amount_in), 10.0 * 41.0);
        }
        other => panic!("{other:?}"),
    }
    answer(&mut engine, Ok(()), 1000);
    engine
}

#[test]
fn what_was_bought_is_sold_in_full() {
    let mut engine = buying();
    tell(&mut engine, success(9.876), 2000);
    answer(&mut engine, Ok(()), 2000);
    match answer(&mut engine, Ok(()), 2000).action {
        Action::Order(LiquidCommand::Order { is_buy, size, .. }) => {
            assert!(!is_buy);
            assert_eq!(f(size), 9.87);
        }
        other => panic!("{other:?}"),
    }
}

#[test]
fn the_hedge_goes_ahead_even_if_records_fail() {
    let (mut engine, _) = swapping();
    tell(&mut engine, success(428.0), 2000);
    let step = answer(&mut engine, Err("busy"), 2000);
    let record = saved(&step);
    assert_eq!(record.stage, "liquid_pending");
    // The hash was not stored, so it is not known to be on record.
    assert_eq!(record.evm_tx_hash, None);
    assert!(matches!(answer(&mut engine, Err("busy"), 2000).action, Action::Order(_)));
}

#[test]
fn the_hedge_needs_a_fresh_book() {
    let (mut engine, _) = swapping();
    tell(&mut engine, success(428.0), 2000);
    let step = answer(&mut engine, Ok(()), 6001);
    assert_eq!(saved(&step).reason, "EvmSwapSuccess: order_book 已过期");
    let (mut blind, _) = swapping();
    blind.accept(EngineEvent::BooksLost);
    tell(&mut blind, success(428.0), 2000);
    assert_eq!(saved(&answer(&mut blind, Ok(()), 2000)).reason, "EvmSwapSuccess: order_book 为空");
}

#[test]
fn a_partial_fill_stops_the_pair() {
    let (mut engine, _) = ordering();
    let partial = TradeResult::LiquidFilled { oid: 5, avg_price: d(42.0), total_size: d(9.99) };
    tell(&mut engine, partial, 3000);
    let record = saved(&answer(&mut engine, Ok(()), 3000));
    assert_eq!(record.reason, "Liquid 仅部分成交");
    assert_eq!((record.evm_tx_hash.as_deref(), record.liquid_oid), (Some("0xabc"), Some(5)));
    assert_eq!(engine.state(), ArbState::RecoveryRequired);
}

#[test]
fn a_resting_order_is_cancelled_and_stops_the_pair() {
    let (mut engine, _) = ordering();
    let step = tell(&mut engine, TradeResult::LiquidResting { oid: 8 }, 3000);
    assert_eq!(saved(&step).stage, "liquid_resting");
    let action = answer(&mut engine, Ok(()), 3000).action;
    assert!(matches!(action, Action::Order(LiquidCommand::Cancel { oid: 8 })));
    answer(&mut engine, Ok(()), 3000);
    assert_eq!(engine.state(), ArbState::LiquidOrdering);
    let record = saved(&tell(&mut engine, TradeResult::LiquidCancelled { oid: 8 }, 3000));
    assert_eq!(record.reason, "Liquid 挂单撤销后仍有未对冲仓位");
    assert_eq!(record.liquid_oid, Some(8));
}

#[test]
fn commands_that_are_not_taken_stop_the_pair() {
    let (mut engine, _) = swapping();
    tell(&mut engine, success(428.0), 2000);
    answer(&mut engine, Ok(()), 2000);
    answer(&mut engine, Ok(()), 2000);
    assert_eq!(saved(&answer(&mut engine, Err("closed"), 2000)).reason, "发送 LiquidOrder 失败");
    let (mut engine, _) = ordering();
    tell(&mut engine, TradeResult::LiquidResting { oid: 8 }, 3000);
    answer(&mut engine, Ok(()), 3000);
    assert_eq!(saved(&answer(&mut engine, Err("closed"), 3000)).reason, "发送 LiquidCancel 失败");
}

#[test]
fn a_refused_order_is_tried_once_more() {
    let refused = || TradeResult::LiquidFailed { reason: "no".to_owned(), retriable: true };
    let (mut engine, first) = ordering();
    engine.accept(EngineEvent::Book(book(42.4, 42.5, 3000)));
    let record = saved(&tell(&mut engine, refused(), 3000));
    assert_eq!((record.stage.as_str(), record.reason.as_str()), ("liquid_pending", "LiquidRetry"));
    match answer(&mut engine, Ok(()), 3000).action {
        Action::Order(second) => assert!(second != first),
        other => panic!("{other:?}"),
    }
    answer(&mut engine, Ok(()), 3000);
    let record = saved(&tell(&mut engine, refused(), 3100));
    assert_eq!((record.stage.as_str(), record.reason.as_str()), ("recovery_required", "no"));
}

#[test]
fn an_order_that_may_be_on_the_book_is_not_tried_again() {
    let (mut engine, _) = ordering();
    let lost = TradeResult::LiquidFailed { reason: "timeout".to_owned(), retriable: false };
    assert_eq!(saved(&tell(&mut engine, lost, 3000)).stage, "recovery_required");
}

#[test]
fn late_results_are_ignored() {
    let mut idle = engine(false, false);
    let step = tell(&mut idle, success(1.0), 1000);
    assert!(matches!(step.action, Action::Wait));
    assert_eq!(idle.state(), ArbState::Idle);
    let (mut swapping, _) = swapping();
    let step = tell(&mut swapping, TradeResult::LiquidCancelled { oid: 1 }, 1000);
    assert!(matches!(step.action, Action::Wait));
    assert_eq!(swapping.state(), ArbState::EvmSwapping);
}

#[test]
fn recovery_is_final() {
    let (mut engine, _) = ordering();
    let step = engine.lose_results();
    let record = saved(&step);
    assert_eq!(record.reason, "trade result channel 已关闭");
    answer(&mut engine, Ok(()), 3000);
    feed(&mut engine, price(42.9, 42.8, 3000), book(41.9, 42.0, 3000));
    assert!(matches!(judge(&mut engine, 3000).action, Action::Wait));
    assert!(matches!(tell(&mut engine, success(1.0), 3000).action, Action::Wait));
    assert_eq!(engine.state(), ArbState::RecoveryRequired);
}

#[test]
fn an_engine_without_a_trade_records_an_unknown_direction() {
    let mut idle = engine(false, false);
    let step = idle.lose_results();
    assert_eq!(saved(&step).direction, "unknown");
    assert_eq!(step.effects.len(), 1);
}

#[test]
fn an_engine_ends_between_trades() {
    let (mut engine, _) = swapping();
    assert!(matches!(engine.accept(EngineEvent::ShutdownRequested), Turn::Continue));
    assert!(!engine.is_done());
    assert!(matches!(judge(&mut engine, 2000).action, Action::Wait));
    tell(&mut engine, TradeResult::EvmSwapAborted { reason: "x".to_owned() }, 2000);
    assert!(!engine.is_done());
    answer(&mut engine, Ok(()), 2000);
    assert!(engine.is_done());
    assert!(matches!(engine.accept(EngineEvent::PricesClosed), Turn::Stop));
    assert!(matches!(engine.accept(EngineEvent::BooksClosed), Turn::Stop));
}

#[test]
fn only_an_idle_pair_may_start() {
    assert!(ArbState::Idle.can_start_quote());
    for state in [ArbState::EvmSwapping, ArbState::LiquidOrdering, ArbState::RecoveryRequired] {
        assert!(!state.can_start_quote());
    }
}
