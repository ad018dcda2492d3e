use spread_circuit::double::Double;
use spread_circuit::liquid::client::{
    decimal_places_for_significant_figures, normalize_spot_order, validate_configured_size,
    validate_market_identity, OrderError,
};
use spread_circuit::liquid::markets::{resolve_market, MarketError, SpotMarket, SpotMeta, SpotToken};
use spread_circuit::liquid::replies::{
    ensure_cancel_succeeded, parse_response, CancelError, ExchangeReply, OrderResult, OrderStatus,
    ReplyStatus,
};

fn d(x: f64) -> Double {
    Double { bits: x.to_bits() }
}

fn f(x: Double) -> f64 {
    f64::from_bits(x.bits)
}

fn magnitude(price: f64) -> i32 {
    price.abs().log10().floor() as i32
}

/// The rounding rule on machine numbers.
fn expected(is_buy: bool, price: f64, size: f64, decimals: u8) -> (f64, f64) {
    let significant = (4 - magnitude(price)).max(0) as u32;
    let places = (8 - decimals as u32).min(significant);
    let factor = 10f64.powi(places as i32);
    let rounded = if is_buy {
        (price * factor - 1e-10).ceil() / factor
    } else {
        (price * factor + 1e-10).floor() / factor
    };
    let size_factor = 10f64.powi(decimals as i32);
    (rounded, (size * size_factor + 1e-10).floor() / size_factor)
}

#[test]
fn orders_round_as_on_the_machine() {
    for price in [0.00001234567, 0.123456789, 1.0, 42.123456, 99999.5, 123456.7, 1e-7, 8.76543e5] {
        for size in [0.123456789, 1.0, 10.5, 12345.6789] {
            for decimals in 0..=8u8 {
                for is_buy in [true, false] {
                    let (wanted_price, wanted_size) = expected(is_buy, price, size, decimals);
                    let got = normalize_spot_order(is_buy, d(price), d(size), decimals);
                    if wanted_size > 0.0 {
                        let order = got.unwrap();
                        assert_eq!(f(order.price), wanted_price);
                        assert_eq!(f(order.size), wanted_size);
                    } else {
                        assert_eq!(got, Err(OrderError::SizeTruncatedToZero));
                    }
                }
            }
        }
    }
}

#[test]
fn prices_next_to_powers_of_ten_round_as_on_the_machine() {
    for power in -6..=7 {
        let ten = 10f64.powi(power);
        for step in -3i64..=3 {
            let price = f64::from_bits((ten.to_bits() as i64 + step) as u64);
            for is_buy in [true, false] {
                let order = normalize_spot_order(is_buy, d(price), d(1.0), 0).unwrap();
                assert_eq!(f(order.price), expected(is_buy, price, 1.0, 0).0, "{price:?}");
            }
        }
    }
}

#[test]
fn prices_with_decimals_show_at_most_five_figures() {
    for (price, shown) in [(99999.7, "100000"), (9999.97, "10000"), (1.234567, "1.2346"), (0.0123456, "0.012346")] {
        let order = normalize_spot_order(true, d(price), d(1.0), 0).unwrap();
        assert_eq!(format!("{}", f(order.price)), shown);
    }
}

#[test]
fn a_buyer_rounds_up_and_a_seller_down() {
    let buy = normalize_spot_order(true, d(42.123456), d(1.239), 2).unwrap();
    assert_eq!((f(buy.price), f(buy.size)), (42.124, 1.23));
    let sell = normalize_spot_order(false, d(42.123456), d(1.239), 2).unwrap();
    assert_eq!((f(sell.price), f(sell.size)), (42.123, 1.23));
}

#[test]
fn bad_orders_are_refused() {
    for price in [0.0, -1.0, f64::NAN, f64::INFINITY] {
        assert_eq!(normalize_spot_order(true, d(price), d(1.0), 2), Err(OrderError::PriceNotPositive));
    }
    for size in [0.0, -1.0, f64::NAN, f64::INFINITY] {
        assert_eq!(normalize_spot_order(true, d(1.0), d(size), 2), Err(OrderError::SizeNotPositive));
    }
    assert_eq!(normalize_spot_order(true, d(1.0), d(1.0), 9), Err(OrderError::TooManySizeDecimals));
    assert_eq!(normalize_spot_order(true, d(1.0), d(0.001), 2), Err(OrderError::SizeTruncatedToZero));
    assert_eq!(OrderError::SizeTruncatedToZero.message(), "size 按市场精度截断后为 0");
}

#[test]
fn decimals_for_significant_figures() {
    let places = |value: f64, figures: i32| decimal_places_for_significant_figures(d(value), figures);
    assert_eq!(places(1.0, 5), 4);
    assert_eq!(places(-9.99, 5), 4);
    assert_eq!(places(12345.6, 5), 0);
    assert_eq!(places(1e9, 5), 0);
    assert_eq!(places(0.001234, 5), 7);
    assert_eq!(places(0.0, 5), i32::MAX as u32);
    assert_eq!(places(f64::NAN, 5), 4);
    assert_eq!(places(f64::INFINITY, i32::MIN), 0);
}

#[test]
fn configured_sizes_must_survive_truncation() {
    assert_eq!(validate_configured_size(d(1.25), 2), Ok(()));
    assert_eq!(validate_configured_size(d(0.1 + 0.2), 1), Ok(()));
    let error = validate_configured_size(d(1.255), 2).err().unwrap();
    assert_eq!(error, OrderError::SizeNotRepresentable { size: d(1.255), size_decimals: 2 });
    assert_eq!(error.message(), "ORDER_AMOUNT=1.255 无法用 HL szDecimals=2 精确表示");
    assert_eq!(validate_configured_size(d(0.0), 2), Err(OrderError::SizeNotPositive));
}

#[test]
fn market_identity() {
    assert!(validate_market_identity("PURR", "purr/usdc", "PURR/USDC", "PURR", "USDC").is_ok());
    assert!(validate_market_identity("hype", "@107", "@107", "HYPE", "usdc").is_ok());
    assert!(validate_market_identity("HYPE", "Hype", "@107", "HYPE", "USDC").is_ok());
    let base = validate_market_identity("PURR", "HYPE", "@107", "HYPE", "USDC").err().unwrap();
    assert!(matches!(&base, MarketError::BaseTokenMismatch { .. }));
    assert_eq!(base.message(), "HL base token HYPE 与配置 symbol PURR 不一致");
    let quote = validate_market_identity("HYPE", "HYPE", "@107", "HYPE", "USDT").err().unwrap();
    assert_eq!(quote.message(), "HL quote token 必须是 USDC，收到 USDT");
    let coin = validate_market_identity("HYPE", "PURR", "@107", "HYPE", "USDC").err().unwrap();
    assert_eq!(coin.message(), "SPOT_COIN PURR 不对应 HL 市场 @107");
}

fn token(name: &str, decimals: u8, index: usize) -> SpotToken {
    SpotToken { name: name.to_owned(), sz_decimals: decimals, index }
}

fn market(name: &str, base: usize, quote: usize) -> SpotMarket {
    SpotMarket { name: name.to_owned(), base, quote }
}

fn meta() -> SpotMeta {
    SpotMeta {
        tokens: vec![token("USDC", 8, 0), token("PURR", 0, 1), token("HYPE", 2, 150), token("USDT", 6, 7)],
        universe: vec![
            market("PURR/USDC", 1, 0),
            market("@107", 150, 0),
            market("@108", 150, 7),
            market("@999", 42, 0),
        ],
    }
}

#[test]
fn a_coin_resolves_to_its_only_usdc_market() {
    for coin in ["@107", "HYPE", "hype/usdc"] {
        let rules = resolve_market(&meta(), coin, "HYPE").unwrap();
        assert_eq!(rules.asset, "@107");
        assert_eq!(rules.base_token, "HYPE");
        assert_eq!(rules.quote_token, "USDC");
        assert_eq!(rules.size_decimals, 2);
    }
}

#[test]
fn coins_that_name_no_market_or_several_are_refused() {
    let none = resolve_market(&meta(), "@999", "X").err().unwrap();
    assert!(matches!(&none, MarketError::NotUnique { matched: 0, .. }));
    assert_eq!(none.message(), "SPOT_COIN=@999 必须唯一匹配一个 HL spot 市场，实际匹配 0 个");
    let mut twice = meta();
    twice.universe.push(market("@200", 150, 0));
    let several = resolve_market(&twice, "HYPE", "HYPE").err().unwrap();
    assert!(matches!(several, MarketError::NotUnique { matched: 2, .. }));
    let other = resolve_market(&meta(), "HYPE", "PURR").err().unwrap();
    assert!(matches!(other, MarketError::BaseTokenMismatch { .. }));
}

fn answered(statuses: Vec<ReplyStatus>) -> ExchangeReply {
    ExchangeReply::Answered(Some(statuses))
}

fn filled(avg: &str, size: &str) -> ReplyStatus {
    ReplyStatus::Filled { oid: 7, avg_px: avg.to_owned(), total_sz: size.to_owned() }
}

#[test]
fn order_answers() {
    let full = parse_response(&answered(vec![ReplyStatus::WaitingForFill, filled("42.5", "1.25")]));
    assert_eq!(
        full,
        OrderResult {
            status: OrderStatus::Filled,
            oid: Some(7),
            avg_price: Some(d(42.5)),
            total_size: Some(d(1.25)),
        }
    );
    let garbled = parse_response(&answered(vec![filled("?", "1.25")]));
    assert_eq!((garbled.status, garbled.avg_price), (OrderStatus::Filled, None));
    let resting = parse_response(&answered(vec![ReplyStatus::Resting { oid: 9 }]));
    assert_eq!((resting.status, resting.oid), (OrderStatus::Resting, Some(9)));
    let refused = parse_response(&answered(vec![
        ReplyStatus::Success,
        ReplyStatus::Error("no".to_owned()),
        filled("1", "1"),
    ]));
    assert_eq!(refused, OrderResult::with_status(OrderStatus::Rejected));
    let unknown = parse_response(&answered(vec![ReplyStatus::Success, ReplyStatus::WaitingForTrigger]));
    assert_eq!(unknown, OrderResult::with_status(OrderStatus::Unknown));
    assert_eq!(parse_response(&answered(vec![])).status, OrderStatus::Unknown);
    assert_eq!(parse_response(&ExchangeReply::Answered(None)).status, OrderStatus::Failed);
    assert_eq!(parse_response(&ExchangeReply::Refused("x".to_owned())).status, OrderStatus::Rejected);
}

#[test]
fn cancellations_need_the_one_success_status() {
    assert!(ensure_cancel_succeeded(answered(vec![ReplyStatus::Success])).is_ok());
    assert!(matches!(
        ensure_cancel_succeeded(ExchangeReply::Answered(None)),
        Err(CancelError::MissingData)
    ));
    assert!(matches!(
        ensure_cancel_succeeded(answered(vec![ReplyStatus::Error("gone".to_owned())])),
        Err(CancelError::Rejected(text)) if text == "gone"
    ));
    assert!(matches!(
        ensure_cancel_succeeded(ExchangeReply::Refused("down".to_owned())),
        Err(CancelError::Rejected(text)) if text == "down"
    ));
    assert!(matches!(
        ensure_cancel_succeeded(answered(vec![ReplyStatus::Success, ReplyStatus::Success])),
        Err(CancelError::UnexpectedStatuses(statuses)) if statuses.len() == 2
    ));
    assert!(matches!(
        ensure_cancel_succeeded(answered(vec![])),
        Err(CancelError::UnexpectedStatuses(_))
    ));
}
