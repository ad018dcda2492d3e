use spread_circuit::actors::pricing::{
    fill_is_complete, hedge_size_token1, is_proper_rate, market_data_is_fresh,
    minimum_buy_evm_output, minimum_sell_evm_output, timestamp_is_fresh, validate_economic_terms,
    worst_case_liquid_price, Amount, ArbDirection, PricingError,
};
use spread_circuit::double::Double;

fn d(x: f64) -> Double {
    Double { bits: x.to_bits() }
}

fn f(x: Double) -> f64 {
    f64::from_bits(x.bits)
}

#[test]
fn directions_keep_their_labels() {
    assert_eq!(ArbDirection::BuyDiff.label(), "buy_diff");
    assert_eq!(ArbDirection::SellDiff.label(), "sell_diff");
}

#[test]
fn the_worst_price_includes_the_slippage() {
    let (bid, ask, slippage) = (9.98, 10.02, 21.0);
    let buy = worst_case_liquid_price(ArbDirection::BuyDiff, d(bid), d(ask), d(slippage)).unwrap();
    assert_eq!(f(buy), ask * (1.0 + slippage / 10000.0));
    let sell = worst_case_liquid_price(ArbDirection::SellDiff, d(bid), d(ask), d(slippage)).unwrap();
    assert_eq!(f(sell), bid * (1.0 - slippage / 10000.0));
}

#[test]
fn the_worst_price_is_never_better_than_the_book() {
    for slippage in [0.0, 0.001, 1.0, 21.0, 9999.9] {
        for price in [5e-324, 1e-10, 0.3, 42.1, 1e300] {
            let buy = worst_case_liquid_price(ArbDirection::BuyDiff, d(price), d(price), d(slippage)).unwrap();
            assert!(f(buy) >= price);
            let sell = worst_case_liquid_price(ArbDirection::SellDiff, d(price), d(price), d(slippage)).unwrap();
            assert!(f(sell) <= price && f(sell) >= 0.0);
        }
    }
}

#[test]
fn unsound_books_and_slippages_are_refused() {
    for (bid, ask) in [(10.0, 9.0), (0.0, 1.0), (-1.0, 1.0), (f64::NAN, 1.0), (1.0, f64::INFINITY)] {
        assert_eq!(
            worst_case_liquid_price(ArbDirection::BuyDiff, d(bid), d(ask), d(1.0)),
            Err(PricingError::UnsoundBook)
        );
    }
    for slippage in [-0.1, 10000.0, f64::NAN] {
        assert_eq!(
            worst_case_liquid_price(ArbDirection::SellDiff, d(1.0), d(2.0), d(slippage)),
            Err(PricingError::SlippageOutOfRange)
        );
    }
    assert!(is_proper_rate(d(-0.0)));
}

#[test]
fn selling_on_chain_must_cover_the_hedge() {
    let (size, price, fee, buffer, gas) = (10.0, 42.1, 1.0, 12.0, 0.02);
    let floor = minimum_buy_evm_output(d(size), d(price), d(fee), d(buffer), d(gas)).unwrap();
    assert_eq!(f(floor), size * price * (1.0 + (fee + buffer) / 10000.0) + gas);
    assert!(f(floor) >= size * price);
    assert!(f(floor) >= gas);
}

#[test]
fn buying_on_chain_must_cover_what_was_spent() {
    let (spent, price, fee, buffer, gas) = (421.0, 42.1, 1.0, 12.0, 0.02);
    let floor = minimum_sell_evm_output(d(spent), d(price), d(fee), d(buffer), d(gas)).unwrap();
    let wanted = (spent * (1.0 + buffer / 10000.0) + gas) / (price * (1.0 - fee / 10000.0));
    assert_eq!(f(floor), wanted);
    assert!(spent / price <= f(floor));
    assert!(gas / price <= f(floor));
    // A price that the fee rounds away asks for more than there is.
    let floor = minimum_sell_evm_output(d(1.0), d(5e-324), d(9999.0), d(0.0), d(0.0)).unwrap();
    assert_eq!(f(floor), f64::INFINITY);
}

#[test]
fn bad_terms_are_refused_in_order() {
    let check = |a: f64, p: f64, fee: f64, buffer: f64, gas: f64| {
        validate_economic_terms(d(a), Amount::HedgeSize, d(p), d(fee), d(buffer), d(gas))
    };
    assert_eq!(check(1.0, 1.0, 0.0, 0.0, 0.0), Ok(()));
    assert_eq!(check(0.0, 0.0, 0.0, 0.0, 0.0), Err(PricingError::BadAmount(Amount::HedgeSize)));
    assert_eq!(check(1.0, f64::INFINITY, 0.0, 0.0, 0.0), Err(PricingError::BadWorstPrice));
    assert_eq!(check(1.0, 1.0, 10000.0, -1.0, 0.0), Err(PricingError::FeeOutOfRange));
    assert_eq!(check(1.0, 1.0, 1.0, -1.0, 0.0), Err(PricingError::BufferOutOfRange));
    assert_eq!(check(1.0, 1.0, 1.0, 1.0, -0.5), Err(PricingError::BadGasCost));
    assert_eq!(
        minimum_sell_evm_output(d(-1.0), d(1.0), d(0.0), d(0.0), d(0.0)),
        Err(PricingError::BadAmount(Amount::EvmAmountIn))
    );
    assert_eq!(PricingError::BadGasCost.message(), "gas_cost_usdc 数值无效");
}

#[test]
fn the_hedge_is_for_what_actually_came_out() {
    assert_eq!(hedge_size_token1(ArbDirection::BuyDiff, d(10.0), Some(d(3.0))), Ok(d(10.0)));
    assert_eq!(hedge_size_token1(ArbDirection::BuyDiff, d(10.0), None), Ok(d(10.0)));
    assert_eq!(hedge_size_token1(ArbDirection::SellDiff, d(10.0), Some(d(9.7))), Ok(d(9.7)));
    assert_eq!(
        hedge_size_token1(ArbDirection::SellDiff, d(10.0), None),
        Err(PricingError::AmountOutMissing)
    );
    assert_eq!(
        hedge_size_token1(ArbDirection::SellDiff, d(10.0), Some(d(0.0))),
        Err(PricingError::BadHedgeSize)
    );
}

#[test]
fn only_a_full_fill_is_complete() {
    assert!(fill_is_complete(d(10.0), d(10.0)));
    assert!(fill_is_complete(d(10.0), d(11.0)));
    assert!(fill_is_complete(d(10.0), d(10.0 - 5e-9)));
    assert!(!fill_is_complete(d(10.0), d(9.999)));
    assert!(!fill_is_complete(d(10.0), d(-0.1)));
    assert!(!fill_is_complete(d(0.0), d(0.0)));
    assert!(!fill_is_complete(d(f64::NAN), d(1.0)));
    assert!(!fill_is_complete(d(1.0), d(f64::INFINITY)));
}

#[test]
fn freshness() {
    assert!(timestamp_is_fresh(100, 100, 0));
    assert!(timestamp_is_fresh(100, 5100, 5000));
    assert!(!timestamp_is_fresh(100, 5101, 5000));
    assert!(!timestamp_is_fresh(101, 100, 5000));
    assert!(timestamp_is_fresh(100, 4000, 5000));
    assert!(market_data_is_fresh(1000, 4000, 4000, 5000, 3000));
    assert!(market_data_is_fresh(4000, 1000, 4000, 5000, 3000));
    assert!(!market_data_is_fresh(999, 4000, 4000, 5000, 3000));
    assert!(!market_data_is_fresh(4001, 4000, 4000, 5000, 3000));
    assert!(!market_data_is_fresh(0, 0, 5001, 5000, 3000));
}
