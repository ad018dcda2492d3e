use serde_json::{Number, Value};
use spread_circuit::actors::backoff::Backoff;
use spread_circuit::actors::evm_watcher::{
    best_of, best_prices, is_dex_enabled, DexQuote, DexQuotes, QuoteError,
};
use spread_circuit::actors::orderbook_watcher::{
    book_from_parts, is_server_error, may_stop, parse_orderbook, read_orderbook,
};
use spread_circuit::config::PairConfig;
use spread_circuit::double::Double;
use spread_circuit::types::market::DexName;

fn d(x: f64) -> Double {
    Double { bits: x.to_bits() }
}

fn quote(value: Option<f64>, dex: DexName) -> DexQuote {
    DexQuote { value: value.map(d), dex }
}

#[test]
fn the_best_quote_wins() {
    let quotes = vec![
        quote(Some(2.0), DexName::Prjx),
        quote(Some(3.0), DexName::HyperSwap),
        quote(None, DexName::Kitten),
    ];
    assert_eq!(best_of(&quotes, true).unwrap().dex, DexName::HyperSwap);
    assert_eq!(best_of(&quotes, false).unwrap().dex, DexName::Prjx);
}

#[test]
fn of_equal_quotes_the_last_is_the_largest_and_the_first_the_smallest() {
    let quotes = vec![
        quote(Some(2.0), DexName::Prjx),
        quote(Some(2.0), DexName::HyperSwap),
        quote(Some(2.0), DexName::Kitten),
    ];
    assert_eq!(best_of(&quotes, true).unwrap().dex, DexName::Kitten);
    assert_eq!(best_of(&quotes, false).unwrap().dex, DexName::Prjx);
}

#[test]
fn unusable_quotes_are_left_out() {
    let quotes = vec![
        quote(Some(0.0), DexName::Prjx),
        quote(Some(f64::NAN), DexName::HyperSwap),
        quote(Some(f64::INFINITY), DexName::Kitten),
    ];
    assert_eq!(best_of(&quotes, true), None);
    assert_eq!(best_of(&vec![], false), None);
}

fn quotes(dex: DexName, buy: Option<f64>, sell: Option<f64>) -> DexQuotes {
    DexQuotes { dex, buy: buy.map(d), sell: sell.map(d) }
}

#[test]
fn prices_are_taken_from_the_best_quotes() {
    let all = vec![
        quotes(DexName::Prjx, Some(2.0), Some(2.5)),
        quotes(DexName::HyperSwap, Some(2.2), Some(2.6)),
        quotes(DexName::Kitten, None, Some(0.0)),
    ];
    let price = best_prices(&all, "HYPE", 77, 1234).unwrap();
    assert_eq!(price.buy_price, d(100.0 / 2.2));
    assert_eq!(price.sell_price, d(100.0 / 2.5));
    assert_eq!((price.buy_dex, price.sell_dex), (DexName::HyperSwap, DexName::Prjx));
    assert_eq!((price.block_number, price.received_at), (77, 1234));
    assert_eq!(price.pair_id, "HYPE");
}

#[test]
fn missing_quotes_are_named() {
    let no_buy = vec![quotes(DexName::Prjx, None, Some(1.0))];
    assert_eq!(best_prices(&no_buy, "X", 1, 1).err(), Some(QuoteError::NoBuyQuote));
    let no_sell = vec![quotes(DexName::Prjx, Some(1.0), None)];
    assert_eq!(best_prices(&no_sell, "X", 1, 1).err(), Some(QuoteError::NoSellQuote));
    assert_eq!(QuoteError::NoSellQuote.message(), "所有 DEX sell 报价均失败");
}

fn pair(use_hyperswap: bool, use_kitten: bool) -> PairConfig {
    PairConfig {
        token0: String::new(),
        decimals0: 6,
        token1: String::new(),
        decimals1: 18,
        symbol: "HYPE".to_owned(),
        spot_coin: "HYPE".to_owned(),
        order_size_token1: d(1.0),
        ask_diff_percent: d(0.0),
        bid_diff_percent: d(0.0),
        min_out_bps: d(0.0),
        limit_slippage: d(0.0),
        fee_tier: 0,
        enable_sell_arb: false,
        use_hyperswap,
        use_kitten,
    }
}

#[test]
fn exchanges_are_asked_as_configured() {
    assert!(is_dex_enabled(&pair(false, false), false, DexName::Prjx));
    assert!(!is_dex_enabled(&pair(false, true), true, DexName::HyperSwap));
    assert!(is_dex_enabled(&pair(true, true), false, DexName::HyperSwap));
    assert!(!is_dex_enabled(&pair(true, true), false, DexName::Kitten));
    assert!(is_dex_enabled(&pair(true, true), true, DexName::Kitten));
    assert_eq!(DexName::Kitten.as_str(), "kitten");
}

const BOOK: &str = r#"{"channel":"l2Book","data":{"coin":"PURR","time":1700000000123,
    "levels":[[{"px":"0.1998","sz":"10","n":1},{"px":"0.19","sz":"1","n":1}],
              [{"px":"0.2002","sz":"7","n":2}]]}}"#;

#[test]
fn order_books_are_read() {
    let book = parse_orderbook(BOOK, 42).unwrap();
    assert_eq!((book.bid, book.ask), (d(0.1998), d(0.2002)));
    assert_eq!((book.created_at, book.received_at), (1_700_000_000_123, 42));
    assert_eq!(book.symbol, "PURR");
}

#[test]
fn a_missing_server_time_is_zero() {
    for time in ["\"soon\"", "-5", "1.5", "null"] {
        let book = parse_orderbook(&BOOK.replace("1700000000123", time), 42).unwrap();
        assert_eq!(book.created_at, 0);
    }
}

#[test]
fn other_messages_are_no_order_books() {
    for text in [
        "",
        "not json",
        "[]",
        r#"{"channel":"subscriptionResponse","data":{}}"#,
        &BOOK.replace("l2Book", "trades"),
        &BOOK.replace("\"PURR\"", "7"),
        &BOOK.replace("0.1998", "abc"),
        &BOOK.replace("0.1998", "0.3"),
        &BOOK.replace("0.1998", "-1"),
        &BOOK.replace("0.2002", "inf"),
        &BOOK.replace("levels", "level"),
        &BOOK.replace("\"0.1998\"", "0.1998"),
    ] {
        assert!(parse_orderbook(text, 42).is_none(), "{text}");
    }
}

fn text(value: &str) -> Value {
    Value::String(value.to_owned())
}

fn side(price: &str) -> Value {
    let mut level = serde_json::Map::new();
    level.insert("px".to_owned(), text(price));
    Value::Array(vec![Value::Object(level)])
}

#[test]
fn values_are_read_as_texts_are() {
    let mut data = serde_json::Map::new();
    data.insert("coin".to_owned(), text("HYPE"));
    data.insert("time".to_owned(), Value::Number(Number::from(9u64)));
    data.insert("levels".to_owned(), Value::Array(vec![side("41.5"), side("41.6")]));
    let mut message = serde_json::Map::new();
    message.insert("channel".to_owned(), text("l2Book"));
    message.insert("data".to_owned(), Value::Object(data));
    let book = read_orderbook(&Value::Object(message), 3).unwrap();
    assert_eq!((book.bid, book.ask, book.created_at), (d(41.5), d(41.6), 9));
    assert!(read_orderbook(&Value::Null, 3).is_none());
}

#[test]
fn parts_give_a_book_only_on_the_right_channel() {
    let read = |channel: Option<&str>, bid: Option<&str>, ask: Option<&str>| {
        book_from_parts(channel, Some("HYPE"), bid, ask, None, 5)
    };
    let book = read(Some("l2Book"), Some("1"), Some("1")).unwrap();
    assert_eq!((book.bid, book.ask, book.created_at, book.received_at), (d(1.0), d(1.0), 0, 5));
    assert!(read(Some("l2book"), Some("1"), Some("1")).is_none());
    assert!(read(None, Some("1"), Some("1")).is_none());
    assert!(read(Some("l2Book"), None, Some("1")).is_none());
    assert!(read(Some("l2Book"), Some("2"), Some("1")).is_none());
    assert!(book_from_parts(Some("l2Book"), None, Some("1"), Some("1"), None, 5).is_none());
}

#[test]
fn server_errors_are_noticed() {
    assert!(is_server_error(r#"{"channel":"error","data":"Invalid subscription"}"#));
    assert!(!is_server_error(r#"{"channel":"pong"}"#));
}

#[test]
fn books_are_needed_until_the_last_engine_is_gone() {
    assert!(!may_stop(false, 0));
    assert!(!may_stop(true, 1));
    assert!(may_stop(true, 0));
}

#[test]
fn waits_double_up_to_a_minute() {
    let mut backoff = Backoff::new();
    let waits: Vec<u64> = (0..9).map(|_| backoff.failed(false).unwrap()).collect();
    assert_eq!(waits, [1, 2, 4, 8, 16, 32, 60, 60, 60]);
    assert_eq!(backoff.failed(true), None);
    assert_eq!(backoff.failed(false), Some(60));
}
