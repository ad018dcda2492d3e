use std::sync::Arc;

use spread_circuit::actors::evm_trader::guard::{GuardError, NoExecutableQuote};
use spread_circuit::actors::evm_trader::run::{
    FreshQuotes, SwapAbort, SwapAction, SwapEnd, SwapRun, SwapStage,
};
use spread_circuit::actors::evm_trader::{
    answer_swap_timeout, guarded_amount_out_min, map_swap_result, select_best_executable_quote,
};
use spread_circuit::actors::evm_watcher::DexQuote;
use spread_circuit::actors::liquid_trader::{
    answer_cancel, answer_order, answer_order_error, answer_timeout, Answer,
};
use spread_circuit::config::{Config, PairConfig};
use spread_circuit::double::Double;
use spread_circuit::evm::amounts::Uint256;
use spread_circuit::evm::client::{Receipt, ReceiptLog, Transfer};
use spread_circuit::liquid::replies::{OrderResult, OrderStatus};
use spread_circuit::metrics::Metric;
use spread_circuit::types::commands::{EvmSwapRequest, TradeResult};
use spread_circuit::types::market::DexName;

fn d(x: f64) -> Double {
    Double { bits: x.to_bits() }
}

fn f(x: Double) -> f64 {
    f64::from_bits(x.bits)
}

const USDC: &str = "0xb8ce59fc3717ada4c02eadf9682a9e934f625ebb";
const HYPE: &str = "0x5555555555555555555555555555555555555555";
const PRJX: &str = "0x1111111111111111111111111111111111111111";
const HYPER: &str = "0x2222222222222222222222222222222222222222";
const KITTEN: &str = "0x3333333333333333333333333333333333333333";

fn config() -> Config {
    Config {
        private_key: "key".to_owned(),
        https_rpc: "https://rpc.example/secret".to_owned(),
        wss_rpc: "wss://ws.example/token".to_owned(),
        wss_api: "wss://api.example/ws".to_owned(),
        min_out_bps: d(30.0),
        limit_slippage: d(21.0),
        liquid_fee_bps: d(1.0),
        gas_cost_usdc: d(0.02),
        profit_buffer_bps: d(12.0),
        hyperswap_router01: HYPER.to_owned(),
        hyperswap_quotev2: HYPER.to_owned(),
        prjx_quotev2: PRJX.to_owned(),
        prjx_routerv2: PRJX.to_owned(),
        kitten_quoter: KITTEN.to_owned(),
        kitten_router: KITTEN.to_owned(),
        dry_run: false,
        metrics_port: 9090,
        metrics_host: "127.0.0.1".to_owned(),
        log_dir: "logs".to_owned(),
        db_path: "data.db".to_owned(),
        db_max_price_rows: 1000,
        pairs: Vec::new(),
    }
}

fn pair() -> PairConfig {
    PairConfig {
        token0: USDC.to_owned(),
        decimals0: 6,
        token1: HYPE.to_owned(),
        decimals1: 18,
        symbol: "HYPE".to_owned(),
        spot_coin: "HYPE".to_owned(),
        order_size_token1: d(10.0),
        ask_diff_percent: d(40.0),
        bid_diff_percent: d(40.0),
        min_out_bps: d(30.0),
        limit_slippage: d(21.0),
        fee_tier: 3000,
        enable_sell_arb: false,
        use_hyperswap: true,
        use_kitten: true,
    }
}

fn request() -> EvmSwapRequest {
    EvmSwapRequest { is_buy: false, amount_in: d(10.0), target_amount: d(420.0), dex: DexName::Prjx }
}

fn wallet() -> Vec<u8> {
    vec![9; 20]
}

fn start_with(config: Config, pair: PairConfig) -> SwapRun {
    SwapRun::start(Arc::new(config), Arc::new(pair), request(), wallet())
        .map_err(|abort| abort.message())
        .unwrap()
}

fn start() -> SwapRun {
    start_with(config(), pair())
}

fn quotes(prjx: f64, hyperswap: f64, kitten: f64) -> FreshQuotes {
    FreshQuotes { prjx: Some(d(prjx)), hyperswap: Some(d(hyperswap)), kitten: Some(d(kitten)) }
}

fn aborted(action: SwapAction) -> SwapAbort {
    match action {
        SwapAction::Finish(SwapEnd::Aborted(abort)) => abort,
        other => panic!("{other:?}"),
    }
}

/// Ten tokens of eighteen decimals.
fn ten() -> Uint256 {
    Uint256::from_low(10_000_000_000_000_000_000)
}

#[test]
fn the_least_output_follows_the_quote_down_to_the_floor() {
    assert_eq!(guarded_amount_out_min(d(1000.0), d(900.0), d(30.0)), Ok(d(1000.0 * (1.0 - 30.0 / 10000.0))));
    assert_eq!(guarded_amount_out_min(d(1000.0), d(999.0), d(30.0)), Ok(d(999.0)));
    assert_eq!(guarded_amount_out_min(d(1000.0), d(1000.0), d(0.0)), Ok(d(1000.0)));
    for fresh in [420.0, 421.5, 1e6] {
        let least = f(guarded_amount_out_min(d(fresh), d(420.0), d(30.0)).unwrap());
        assert!(least >= 420.0 && least <= fresh);
    }
}

#[test]
fn least_outputs_that_cannot_be_set() {
    let guard = |fresh: f64, floor: f64, rate: f64| guarded_amount_out_min(d(fresh), d(floor), d(rate)).err();
    assert_eq!(guard(0.0, 1.0, 0.0), Some(GuardError::BadFreshOut));
    assert_eq!(guard(1.0, f64::NAN, 0.0), Some(GuardError::BadEconomicFloor));
    assert_eq!(guard(1.0, 1.0, 10000.0), Some(GuardError::RateOutOfRange));
    assert_eq!(guard(1.0, 1.1, 0.0), Some(GuardError::PriceDeteriorated));
    assert_eq!(GuardError::PriceDeteriorated.message(), "价格已恶化");
}

#[test]
fn the_fresh_quote_that_brings_most_is_executed() {
    let candidate = |value: Option<f64>, dex: DexName| DexQuote { value: value.map(d), dex };
    let best = select_best_executable_quote(&vec![
        candidate(Some(1.0), DexName::Prjx),
        candidate(Some(3.0), DexName::HyperSwap),
        candidate(Some(2.0), DexName::Kitten),
    ])
    .unwrap();
    assert_eq!((best.value, best.dex), (d(3.0), DexName::HyperSwap));
    assert_eq!(
        select_best_executable_quote(&vec![candidate(None, DexName::Prjx)]),
        Err(NoExecutableQuote)
    );
}

#[test]
fn a_swap_runs_with_enough_allowance() {
    let mut run = start();
    assert_eq!(run.stage(), SwapStage::Quoting);
    assert!(matches!(run.quoted(&quotes(425.0, 430.0, 429.0)), SwapAction::CheckFunds));
    match run.funded(&ten(), 7) {
        SwapAction::CheckAllowance { router } => assert_eq!(router, vec![0x22; 20]),
        other => panic!("{other:?}"),
    }
    match run.allowed(&ten()) {
        SwapAction::Swap(call) => {
            assert_eq!(call.dex, DexName::HyperSwap);
            assert_eq!(call.router, vec![0x22; 20]);
            assert_eq!(call.token_in, vec![0x55; 20]);
            assert_eq!(call.token_out[0], 0xb8);
            assert_eq!(call.recipient, wallet());
            assert_eq!((call.fee_tier, call.nonce), (3000, 7));
            assert_eq!(call.amount_in, ten());
            // 430 less 30 basis points, in six decimals
            assert_eq!(call.amount_out_min, Uint256::from_low(428_710_000));
        }
        other => panic!("{other:?}"),
    }
    let token = {
        let mut bytes = vec![0u8; 20];
        for (i, byte) in bytes.iter_mut().enumerate() {
            *byte = u8::from_str_radix(&USDC[2 + 2 * i..4 + 2 * i], 16).unwrap();
        }
        bytes
    };
    let receipt = Receipt {
        status: true,
        tx_hash: "0xabc".to_owned(),
        logs: vec![ReceiptLog {
            address: token,
            transfer: Some(Transfer { to: wallet(), value: Uint256::from_low(429_500_000) }),
        }],
    };
    match run.swapped(&receipt) {
        SwapAction::Finish(SwapEnd::Brought { amount_out, tx_hash }) => {
            assert_eq!((amount_out, tx_hash.as_str()), (d(429.5), "0xabc"));
        }
        other => panic!("{other:?}"),
    }
    assert_eq!(run.stage(), SwapStage::Over);
}

#[test]
fn an_approval_comes_first_and_takes_a_nonce() {
    let mut run = start();
    run.quoted(&quotes(425.0, 1.0, 430.0));
    run.funded(&Uint256::max(), 7);
    match run.allowed(&Uint256::from_low(5)) {
        SwapAction::Approve { router, nonce } => assert_eq!((router, nonce), (vec![0x33; 20], 7)),
        other => panic!("{other:?}"),
    }
    match run.approved(true, "0x1") {
        // The router of Kitten takes no fee tier.
        SwapAction::Swap(call) => assert_eq!((call.nonce, call.fee_tier), (8, 0)),
        other => panic!("{other:?}"),
    }
}

#[test]
fn a_quote_below_the_target_gives_the_swap_up() {
    let abort = aborted(start().quoted(&quotes(419.9, 419.0, 0.0)));
    assert!(matches!(abort, SwapAbort::Deteriorated { .. }));
    assert!(abort.is_price_deterioration());
    assert_eq!(
        abort.message(),
        format!(
            "价格已恶化，放弃 swap: fresh={:.6} < target={:.6} (恶化 {:.2}bps)",
            419.9,
            420.0,
            (420.0 - 419.9) / 420.0 * 10000.0
        )
    );
}

#[test]
fn faults_before_sending_give_the_swap_up() {
    let none = FreshQuotes { prjx: None, hyperswap: None, kitten: None };
    assert!(matches!(aborted(start().quoted(&none)), SwapAbort::NoQuote));
    let mut poor = start();
    poor.quoted(&quotes(430.0, 0.0, 0.0));
    let abort = aborted(poor.funded(&Uint256::from_low(9), 7));
    assert_eq!(abort.message(), "HYPE 余额不足: 有 0.0000，需要 10.0000，跳过");
    let mut near = start();
    near.quoted(&quotes(430.0, 0.0, 0.0));
    let abort = aborted(near.funded(&Uint256::from_low(9_123_456_789_000_000_000), 7));
    assert_eq!(abort.message(), "HYPE 余额不足: 有 9.1235，需要 10.0000，跳过");
    let mut blind = start();
    blind.quoted(&quotes(430.0, 0.0, 0.0));
    assert_eq!(aborted(blind.failed("no answer")).message(), "no answer");
    let mut bad_rate = pair();
    bad_rate.min_out_bps = d(-1.0);
    let abort = aborted(start_with(config(), bad_rate).quoted(&quotes(430.0, 0.0, 0.0)));
    assert!(matches!(abort, SwapAbort::Guard(GuardError::RateOutOfRange)));
    let mut fine = pair();
    fine.decimals1 = 39;
    let abort = aborted(start_with(config(), fine).quoted(&quotes(430.0, 0.0, 0.0)));
    assert!(matches!(abort, SwapAbort::Amount(_)));
}

fn not_an_address(text: &str) -> String {
    text.parse::<alloy::primitives::Address>().unwrap_err().to_string()
}

#[test]
fn a_run_tells_what_it_trades() {
    let run = start();
    assert_eq!((run.token_in(), run.decimals_in()), (&vec![0x55; 20], 18));
    assert_eq!((run.token_out().len(), run.token_out()[0], run.decimals_out()), (20, 0xb8, 6));
    assert_eq!((run.fee_tier(), run.amount_in()), (pair().fee_tier, d(10.0)));
}

#[test]
fn a_reverted_kitten_swap_is_named() {
    let mut run = start();
    run.quoted(&quotes(425.0, 1.0, 430.0));
    run.funded(&ten(), 7);
    run.allowed(&ten());
    let reverted = Receipt { status: false, tx_hash: "0x2".to_owned(), logs: vec![] };
    assert_eq!(failure(run.swapped(&reverted)), "kitten swap tx 回滚: 0x2");
}

#[test]
fn routers_must_be_configured() {
    let with_router = |router: &str| {
        let mut config = config();
        config.prjx_routerv2 = router.to_owned();
        let mut run = start_with(config, pair());
        run.quoted(&quotes(430.0, 0.0, 0.0));
        aborted(run.funded(&ten(), 7)).message()
    };
    assert_eq!(with_router(""), "prjx_routerv2 未配置，无法执行 swap");
    assert_eq!(with_router("0x12"), not_an_address("0x12"));
    assert_eq!(
        with_router("0x0000000000000000000000000000000000000000"),
        "prjx_routerv2 解析为零地址，配置无效"
    );
}

#[test]
fn bad_tokens_give_the_swap_up() {
    let mut bad = pair();
    bad.token1 = "HYPE".to_owned();
    let result = SwapRun::start(Arc::new(config()), Arc::new(bad), request(), wallet());
    assert_eq!(result.err().unwrap().message(), not_an_address("HYPE"));
}

#[test]
fn disabled_exchanges_do_not_count() {
    let mut without = pair();
    without.use_hyperswap = false;
    let mut no_kitten = config();
    no_kitten.kitten_quoter = String::new();
    let mut run = start_with(no_kitten, without);
    run.quoted(&quotes(425.0, 999.0, 999.0));
    assert!(matches!(run.stage(), SwapStage::Funding { dex: DexName::Prjx, .. }));
}

fn failure(action: SwapAction) -> String {
    match action {
        SwapAction::Finish(SwapEnd::Failed { reason }) => reason,
        other => panic!("{other:?}"),
    }
}

fn sent() -> SwapRun {
    let mut run = start();
    run.quoted(&quotes(430.0, 0.0, 0.0));
    run.funded(&ten(), 7);
    run.allowed(&ten());
    run
}

#[test]
fn faults_after_sending_are_failures() {
    let mut approving = start();
    approving.quoted(&quotes(430.0, 0.0, 0.0));
    approving.funded(&ten(), 7);
    approving.allowed(&Uint256::from_low(0));
    assert_eq!(failure(approving.approved(false, "0x1")), "approve tx 回滚: 0x1");
    assert_eq!(failure(sent().failed("connection lost")), "connection lost");
    let reverted = Receipt { status: false, tx_hash: "0x2".to_owned(), logs: vec![] };
    assert_eq!(failure(sent().swapped(&reverted)), "swap tx 回滚: 0x2");
    let silent = Receipt { status: true, tx_hash: "0x3".to_owned(), logs: vec![] };
    match sent().swapped(&silent) {
        SwapAction::Finish(SwapEnd::AmountUnknown { tx_hash }) => assert_eq!(tx_hash, "0x3"),
        other => panic!("{other:?}"),
    }
}

fn counted(answer: &Answer) -> Vec<(Metric, String)> {
    answer.updates.iter().map(|update| (update.metric, update.labels[0].clone())).collect()
}

#[test]
fn swaps_are_reported() {
    let brought = SwapEnd::Brought { amount_out: d(429.5), tx_hash: "0xabc".to_owned() };
    let answer = map_swap_result("HYPE", &request(), brought);
    assert!(matches!(&answer.result, TradeResult::EvmSwapSuccess { amount_out, .. } if f(*amount_out) == 429.5));
    assert_eq!(
        counted(&answer),
        [
            (Metric::EvmSwapTotal, "success".to_owned()),
            (Metric::EvmSwapAmountOutTotal, "buy_diff".to_owned())
        ]
    );
    let unknown = map_swap_result("HYPE", &request(), SwapEnd::AmountUnknown { tx_hash: "0x3".to_owned() });
    assert!(matches!(&unknown.result, TradeResult::EvmSwapConfirmedAmountUnknown { tx_hash } if tx_hash == "0x3"));
    assert_eq!(counted(&unknown), [(Metric::EvmSwapTotal, "unknown".to_owned())]);
    let failed = map_swap_result("HYPE", &request(), SwapEnd::Failed { reason: "x".to_owned() });
    assert!(matches!(&failed.result, TradeResult::EvmSwapFailed { reason } if reason == "x"));
    assert_eq!(counted(&failed), [(Metric::EvmSwapTotal, "failed".to_owned())]);
    let gone = SwapAbort::Deteriorated { fresh: d(1.0), target: d(2.0) };
    let deteriorated = map_swap_result("HYPE", &request(), SwapEnd::Aborted(gone));
    assert!(matches!(deteriorated.result, TradeResult::EvmSwapAborted { .. }));
    assert_eq!(
        counted(&deteriorated),
        [
            (Metric::RequoteAbortedTotal, "HYPE".to_owned()),
            (Metric::EvmSwapTotal, "aborted".to_owned())
        ]
    );
    let no_quote = map_swap_result("HYPE", &request(), SwapEnd::Aborted(SwapAbort::NoQuote));
    assert_eq!(counted(&no_quote), [(Metric::EvmSwapTotal, "aborted".to_owned())]);
    let late = answer_swap_timeout("HYPE");
    assert!(matches!(&late.result, TradeResult::EvmSwapUnknown { reason } if reason == "EVM 交易执行超时"));
    assert_eq!(counted(&late), [(Metric::EvmSwapTotal, "unknown".to_owned())]);
}

fn order(status: OrderStatus) -> OrderResult {
    OrderResult {
        status,
        oid: Some(7),
        avg_price: Some(d(42.0)),
        total_size: Some(d(10.0)),
    }
}

fn failed_with(answer: &Answer) -> (String, bool) {
    match &answer.result {
        TradeResult::LiquidFailed { reason, retriable } => (reason.clone(), *retriable),
        other => panic!("{other:?}"),
    }
}

#[test]
fn orders_are_reported() {
    let filled = answer_order("HYPE", &order(OrderStatus::Filled));
    assert!(matches!(filled.result, TradeResult::LiquidFilled { oid: 7, .. }));
    assert_eq!(filled.updates.len(), 2);
    let mut partial = order(OrderStatus::Filled);
    partial.avg_price = None;
    assert_eq!(
        failed_with(&answer_order("HYPE", &partial)),
        ("filled response missing execution fields".to_owned(), false)
    );
    assert!(matches!(
        answer_order("HYPE", &order(OrderStatus::Resting)).result,
        TradeResult::LiquidResting { oid: 7 }
    ));
    let mut nameless = order(OrderStatus::Resting);
    nameless.oid = None;
    assert_eq!(
        failed_with(&answer_order("HYPE", &nameless)),
        ("resting order missing oid".to_owned(), false)
    );
    assert_eq!(
        failed_with(&answer_order("HYPE", &order(OrderStatus::Rejected))),
        ("unknown status".to_owned(), true)
    );
    for status in [OrderStatus::Failed, OrderStatus::Unknown] {
        assert_eq!(failed_with(&answer_order("HYPE", &order(status))), ("unknown status".to_owned(), false));
    }
    let error = answer_order_error("HYPE", "market_order failed: x");
    assert_eq!(failed_with(&error), ("market_order failed: x".to_owned(), false));
    assert_eq!(counted(&error), [(Metric::LiquidOrderTotal, "failed".to_owned())]);
}

#[test]
fn cancellations_and_timeouts_are_reported() {
    assert!(matches!(answer_cancel(3, Ok(())).result, TradeResult::LiquidCancelled { oid: 3 }));
    assert_eq!(failed_with(&answer_cancel(3, Err("gone".to_owned()))), ("gone".to_owned(), false));
    assert_eq!(failed_with(&answer_timeout()), ("HyperLiquid 请求超时".to_owned(), false));
    assert!(answer_timeout().updates.is_empty());
}
