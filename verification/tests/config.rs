use std::collections::HashMap;

use spread_circuit::config::redaction::redact_url;
use spread_circuit::config::{Config, ConfigError, ConfigSource, Fault, PairConfig};
use spread_circuit::decimal::faults::{fault_of_count, fault_of_double, NumberFault};

struct Entries(HashMap<String, String>);

impl ConfigSource for Entries {
    fn get(&self, key: &str) -> Option<String> {
        self.0.get(key).cloned()
    }
}

impl Entries {
    fn with(mut self, key: &str, value: &str) -> Self {
        self.0.insert(key.to_owned(), value.to_owned());
        self
    }

    fn without(mut self, key: &str) -> Self {
        self.0.remove(key);
        self
    }
}

const USDC: &str = "0xb8ce59fc3717ada4c02eadf9682a9e934f625ebb";
const PURR: &str = "0x9b498c3c8a0b8cd8ba1d9851d40d186f1872b44e";
const ROUTER: &str = "0x1111111111111111111111111111111111111111";

fn entries() -> Entries {
    let mut map = HashMap::new();
    for (key, value) in [
        ("PRIVATE_KEY", "key"),
        ("HTTPS_RPC", "https://rpc.example/secret"),
        ("WSS_RPC", "wss://ws.example/token"),
        ("WSS_API", "wss://api.example/ws"),
        ("HYPERSWAP_ROUTER01", ROUTER),
        ("HYPERSWAP_QUOTEV2", ROUTER),
        ("PRJX_QUOTEV2", ROUTER),
        ("PRJX_ROUTERV2", ROUTER),
        ("PAIRS", "purr"),
        ("PURR_TOKEN0", USDC),
        ("PURR_DECIMALS0", "6"),
        ("PURR_TOKEN1", PURR),
        ("PURR_DECIMALS1", "18"),
        ("PURR_SPOT_COIN", "PURR/USDC"),
        ("PURR_ORDER_AMOUNT", "100"),
        ("PURR_ASK_DIFF_PERCENT", "40"),
        ("PURR_BID_DIFF_PERCENT", "-5.5"),
        ("PURR_FEE_TIER", "3000"),
    ] {
        map.insert(key.to_owned(), value.to_owned());
    }
    Entries(map)
}

fn accepted(source: Entries) -> Config {
    Config::try_from_source(&source).map_err(|error| error.message()).unwrap()
}

fn refused(source: Entries) -> ConfigError {
    Config::try_from_source(&source).err().unwrap()
}

fn fault(source: Entries) -> (Fault, String) {
    let error = refused(source);
    (error.fault, error.key)
}

#[test]
fn an_empty_source_is_refused() {
    let error = refused(Entries(HashMap::new()));
    assert_eq!(error.fault, Fault::Missing);
    assert_eq!(error.message(), "缺少环境变量 PRIVATE_KEY");
}

#[test]
fn defaults_are_filled_in() {
    let config = accepted(entries());
    assert!(config.dry_run);
    assert_eq!(f64::from_bits(config.min_out_bps.bits), 30.0);
    assert_eq!(f64::from_bits(config.limit_slippage.bits), 21.0);
    assert_eq!(f64::from_bits(config.liquid_fee_bps.bits), 1.0);
    assert_eq!(f64::from_bits(config.gas_cost_usdc.bits), 0.02);
    assert_eq!(f64::from_bits(config.profit_buffer_bps.bits), 12.0);
    assert_eq!(config.metrics_port, 9090);
    assert_eq!(config.metrics_host, "127.0.0.1");
    assert_eq!(config.log_dir, "logs");
    assert_eq!(config.db_path, "data.db");
    assert_eq!(config.db_max_price_rows, 1_000_000);
    assert_eq!(config.kitten_quoter, "");
    let pairs: Vec<PairConfig> = config.pairs();
    assert_eq!(pairs.len(), 1);
    assert_eq!(pairs[0].symbol, "PURR");
    assert_eq!(pairs[0].decimals1, 18);
    assert_eq!(f64::from_bits(pairs[0].order_size_token1.bits), 100.0);
    assert_eq!(f64::from_bits(pairs[0].bid_diff_percent.bits), -5.5);
    assert_eq!(f64::from_bits(pairs[0].min_out_bps.bits), 30.0);
    assert_eq!(f64::from_bits(pairs[0].limit_slippage.bits), 21.0);
    assert_eq!(pairs[0].fee_tier, 3000);
    assert!(!pairs[0].enable_sell_arb);
    assert!(pairs[0].use_hyperswap && pairs[0].use_kitten);
}

#[test]
fn given_settings_are_taken() {
    let config = accepted(
        entries()
            .with("DRY_RUN", " TRUE ")
            .with("MIN_OUT_BPS", "12.5")
            .with("METRICS_PORT", "+8080")
            .with("PURR_LIMIT_SLIPPAGE", "3e1")
            .with("PURR_SYMBOL", "Purr")
            .with("PURR_ENABLE_SELL_ARB", "True")
            .with("PURR_USE_KITTEN", "false")
            .with("KITTEN_QUOTER", ROUTER)
            .with("KITTEN_ROUTER", ROUTER),
    );
    assert_eq!(config.metrics_port, 8080);
    let pair = &config.pairs()[0];
    assert_eq!(pair.symbol, "Purr");
    assert_eq!(f64::from_bits(pair.min_out_bps.bits), 12.5);
    assert_eq!(f64::from_bits(pair.limit_slippage.bits), 30.0);
    assert!(pair.enable_sell_arb);
    assert!(!pair.use_kitten);
}

#[test]
fn live_trading_needs_its_confirmation() {
    let error = refused(entries().with("DRY_RUN", "false"));
    assert_eq!(error.fault, Fault::NotAcknowledged);
    assert_eq!(error.message(), "DRY_RUN=false 时必须设置 LIVE_TRADING_ACK=I_UNDERSTAND_THE_RISK");
    assert_eq!(
        fault(entries().with("DRY_RUN", "false").with("LIVE_TRADING_ACK", "i_understand_the_risk")).0,
        Fault::NotAcknowledged
    );
    let live = accepted(
        entries().with("DRY_RUN", "false").with("LIVE_TRADING_ACK", "I_UNDERSTAND_THE_RISK"),
    );
    assert!(!live.dry_run);
}

#[test]
fn single_settings_are_checked() {
    let at = |key: &str, value: &str| fault(entries().with(key, value));
    assert_eq!(at("DRY_RUN", "yes"), (Fault::NotABoolean, "DRY_RUN".to_owned()));
    assert_eq!(at("WSS_API", "  "), (Fault::Blank, "WSS_API".to_owned()));
    assert_eq!(at("MIN_OUT_BPS", "abc"), (Fault::NotANumber(NumberFault::InvalidFloat), "MIN_OUT_BPS".to_owned()));
    assert_eq!(at("MIN_OUT_BPS", " 1"), (Fault::NotANumber(NumberFault::InvalidFloat), "MIN_OUT_BPS".to_owned()));
    assert_eq!(at("METRICS_PORT", "65536"), (Fault::NotANumber(NumberFault::TooLarge), "METRICS_PORT".to_owned()));
    assert_eq!(at("PURR_DECIMALS1", "256"), (Fault::NotANumber(NumberFault::TooLarge), "PURR_DECIMALS1".to_owned()));
    assert_eq!(at("LIQUID_FEE_BPS", "inf"), (Fault::NotFinite, "LIQUID_FEE_BPS".to_owned()));
    assert_eq!(at("PROFIT_BUFFER_BPS", "10000"), (Fault::OutOfRange, "PROFIT_BUFFER_BPS".to_owned()));
    assert_eq!(at("GAS_COST_USDC", "-0.1"), (Fault::NotACost, "GAS_COST_USDC".to_owned()));
    assert_eq!(at("DB_MAX_PRICE_ROWS", "0"), (Fault::Zero, "DB_MAX_PRICE_ROWS".to_owned()));
    assert_eq!(at("PRJX_ROUTERV2", "0x12"), (Fault::NotAnAddress, "PRJX_ROUTERV2".to_owned()));
    assert_eq!(
        at("PRJX_QUOTEV2", "0x0000000000000000000000000000000000000000"),
        (Fault::ZeroAddress, "PRJX_QUOTEV2".to_owned())
    );
    assert_eq!(at("KITTEN_ROUTER", ROUTER), (Fault::HalfConfigured, "KITTEN_QUOTER".to_owned()));
    let error = refused(entries().with("MIN_OUT_BPS", "abc"));
    assert_eq!(error.message(), "MIN_OUT_BPS 值无效 'abc': invalid float literal");
    let error = refused(entries().with("PRJX_ROUTERV2", "0x12"));
    let said = "0x12".parse::<alloy::primitives::Address>().unwrap_err();
    assert_eq!(error.message(), format!("PRJX_ROUTERV2 地址无效: {said}"));
}

#[test]
fn texts_that_are_no_numbers_are_described_as_by_the_standard_library() {
    for text in ["", "+", "-", "-1", "x", "1x", "+5x", "256", "256x", "25x", "100x", "1000x", "99999999999", "1.0", "+ 1"] {
        if let Err(error) = text.parse::<u8>() {
            assert_eq!(fault_of_count(text, u8::MAX as u64).message(), error.to_string(), "{text:?}");
        }
        if let Err(error) = text.parse::<u64>() {
            assert_eq!(fault_of_count(text, u64::MAX).message(), error.to_string(), "{text:?}");
        }
        if let Err(error) = text.parse::<f64>() {
            assert_eq!(fault_of_double(text).message(), error.to_string(), "{text:?}");
        }
    }
    for text in ["18446744073709551616", "184467440737095516150", "1844674407370955161x"] {
        let error = text.parse::<u64>().unwrap_err();
        assert_eq!(fault_of_count(text, u64::MAX).message(), error.to_string(), "{text:?}");
    }
}

#[test]
fn pairs_are_checked() {
    let at = |key: &str, value: &str| fault(entries().with(key, value));
    assert_eq!(fault(entries().without("PURR_FEE_TIER")), (Fault::Missing, "PURR_FEE_TIER".to_owned()));
    assert_eq!(at("PURR_TOKEN1", USDC), (Fault::SameTokens, "PURR_TOKEN0".to_owned()));
    assert_eq!(at("PURR_TOKEN0", ROUTER), (Fault::NotUsdc, "PURR_TOKEN0".to_owned()));
    assert_eq!(at("PURR_DECIMALS0", "18"), (Fault::NotSixDecimals, "PURR_DECIMALS0".to_owned()));
    assert_eq!(at("PURR_DECIMALS1", "39"), (Fault::TooManyDecimals, "PURR_DECIMALS1".to_owned()));
    assert_eq!(at("PURR_SYMBOL", " "), (Fault::Empty, "PURR_SYMBOL".to_owned()));
    assert_eq!(refused(entries().with("PURR_SYMBOL", " ")).message(), "PURR_SYMBOL 不能为空");
    assert_eq!(at("PURR_SPOT_COIN", " "), (Fault::Blank, "PURR_SPOT_COIN".to_owned()));
    assert_eq!(refused(entries().with("PURR_SPOT_COIN", " ")).message(), "环境变量 PURR_SPOT_COIN 不能为空");
    assert_eq!(at("PURR_ORDER_AMOUNT", "0"), (Fault::BadOrderSize, "PURR_ORDER_AMOUNT".to_owned()));
    assert_eq!(at("PURR_ORDER_AMOUNT", "1e15"), (Fault::BadOrderSize, "PURR_ORDER_AMOUNT".to_owned()));
    assert_eq!(at("PURR_ASK_DIFF_PERCENT", "-1"), (Fault::OutOfRange, "PURR_ASK_DIFF_PERCENT".to_owned()));
    assert_eq!(
        at("PURR_BID_DIFF_PERCENT", "-10000.5"),
        (Fault::OutOfSignedRange, "PURR_BID_DIFF_PERCENT".to_owned())
    );
    assert_eq!(at("PURR_FEE_TIER", "16777216"), (Fault::BadFeeTier, "PURR_FEE_TIER".to_owned()));
    assert_eq!(accepted(entries().with("PURR_FEE_TIER", "16777215")).pairs()[0].fee_tier, 16_777_215);
}

#[test]
fn settings_emptied_after_reading_are_refused() {
    let mut config = accepted(entries());
    config.private_key = " ".to_owned();
    let error = config.validate_global().err().unwrap();
    assert_eq!((error.fault, error.message()), (Fault::Empty, "PRIVATE_KEY 不能为空".to_owned()));
    let mut pair = accepted(entries()).pairs().remove(0);
    pair.spot_coin = "".to_owned();
    let error = pair.validate("PURR").err().unwrap();
    assert_eq!((error.fault, error.message()), (Fault::Empty, "PURR_SPOT_COIN 不能为空".to_owned()));
}

#[test]
fn addresses_take_either_case_and_an_optional_prefix() {
    for text in [
        USDC.to_owned(),
        USDC.to_uppercase(),
        USDC.trim_start_matches("0x").to_owned(),
        USDC.trim_start_matches("0x").to_uppercase(),
    ] {
        accepted(entries().with("PURR_TOKEN0", &text));
    }
    for text in ["0x", "", "0xb8ce59fc3717ada4c02eadf9682a9e934f625eb", "0xg8ce59fc3717ada4c02eadf9682a9e934f625ebb",
        "0xb8ce59fc3717ada4c02eadf9682a9e934f625ebbb"]
    {
        let got = fault(entries().with("PURR_TOKEN0", text)).0;
        assert!(got == Fault::NotAnAddress || got == Fault::Blank);
    }
}

#[test]
fn the_list_of_pairs_is_cleaned_up() {
    assert_eq!(fault(entries().with("PAIRS", " , ,")), (Fault::NoPairs, "PAIRS".to_owned()));
    assert_eq!(accepted(entries().with("PAIRS", ", purr ,")).pairs().len(), 1);
}

#[test]
fn prefixes_are_put_in_upper_case() {
    // The default symbol is the prefix as the list gives it, in upper case.
    assert_eq!(accepted(entries().with("PAIRS", "pUrR")).pairs()[0].symbol, "PURR");
}

#[test]
fn two_pairs_cannot_share_a_symbol() {
    let mut source = entries().with("PAIRS", "PURR,HYPE");
    for suffix in ["TOKEN0", "DECIMALS0", "TOKEN1", "DECIMALS1", "SPOT_COIN", "ORDER_AMOUNT",
        "ASK_DIFF_PERCENT", "BID_DIFF_PERCENT", "FEE_TIER"]
    {
        let value = source.0[&format!("PURR_{suffix}")].clone();
        source = source.with(&format!("HYPE_{suffix}"), &value);
    }
    let both = accepted(Entries(source.0.clone()));
    assert_eq!(both.pairs().iter().map(|pair| pair.symbol.as_str()).collect::<Vec<_>>(), ["PURR", "HYPE"]);
    let error = refused(source.with("HYPE_SYMBOL", "PURR"));
    assert_eq!(error.fault, Fault::DuplicateSymbol);
    assert_eq!(error.message(), "交易对 symbol 重复: PURR");
}

#[test]
fn urls_lose_their_path() {
    assert_eq!(redact_url("https://rpc.example/secret/key"), "https://rpc.example/***");
    assert_eq!(redact_url("wss://ws.example"), "wss://ws.example/***");
    assert_eq!(redact_url("no-scheme"), "***");
    assert_eq!(redact_url("https:///secret"), "***");
    assert_eq!(redact_url("https://a/b"), redact_url("https://a/c"));
}

#[test]
fn rpc_urls_are_redacted_in_texts() {
    let config = accepted(entries());
    assert_eq!(
        config.redact_rpc("POST https://rpc.example/secret failed, wss://ws.example/token too"),
        "POST https://rpc.example/*** failed, wss://ws.example/*** too"
    );
    assert_eq!(config.redact_rpc("nothing to hide"), "nothing to hide");
}
