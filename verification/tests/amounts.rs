use spread_circuit::double::Double;
use spread_circuit::evm::amounts::{decimal_scale, from_bigint, to_bigint, to_bigint_ceil, AmountError, Uint256};

fn d(x: f64) -> Double {
    Double { bits: x.to_bits() }
}

fn low(x: u128) -> Uint256 {
    Uint256::from_low(x)
}

/// The conversion on machine numbers, for results of 128 bits.
fn expected(amount: f64, decimals: u8, up: bool) -> u128 {
    let floored = amount.floor();
    let scale = 10u128.pow(decimals as u32);
    let fraction = (amount - floored) * scale as f64;
    let rounded = if up { fraction.ceil() } else { fraction.round() };
    floored as u128 * scale + rounded as u128
}

#[test]
fn amounts_convert_as_on_the_machine() {
    for amount in [0.0, -0.0, 0.5, 1.0, 0.1, 1.1, 42.123456789, 100.0, 12345.6789, 999999.999999, 1e-7] {
        for decimals in [0u8, 1, 6, 8, 18, 24] {
            assert_eq!(to_bigint(d(amount), decimals), Ok(low(expected(amount, decimals, false))));
            assert_eq!(to_bigint_ceil(d(amount), decimals), Ok(low(expected(amount, decimals, true))));
        }
    }
}

#[test]
fn large_amounts_need_more_than_128_bits() {
    // (10^15 - 1) * 10^38 = high * 2^128 + low
    let number = to_bigint(d(999_999_999_999_999.0), 38).unwrap();
    assert!(number.high > 0);
    // Taken apart by hand: the remainder modulo 2^128 is the wrapping product.
    let scale = 10u128.pow(38);
    assert_eq!(number.low, 999_999_999_999_999u128.wrapping_mul(scale));
    let (mut rest, mut high) = (0u128, 0u128);
    for bit in (0..50).rev() {
        let (doubled, carry) = rest.overflowing_add(rest);
        high = high * 2 + carry as u128;
        rest = doubled;
        if 999_999_999_999_999u128 >> bit & 1 == 1 {
            let (sum, carry) = rest.overflowing_add(scale);
            high += carry as u128;
            rest = sum;
        }
    }
    assert_eq!((number.high, number.low), (high, rest));
}

#[test]
fn bad_amounts_are_refused() {
    assert_eq!(to_bigint(d(1.0), 39), Err(AmountError::TooManyDecimals));
    for amount in [-1.0, f64::NAN, f64::INFINITY, f64::NEG_INFINITY] {
        let error = to_bigint(d(amount), 6).err().unwrap();
        assert_eq!(error, AmountError::Negative(d(amount)));
        assert_eq!(error.message(), format!("to_bigint: amount 必须为非负有限数，got {amount}"));
    }
    let error = to_bigint(d(1e15), 6).err().unwrap();
    assert_eq!(error, AmountError::TooLarge(d(1e15)));
    assert_eq!(error.message(), format!("to_bigint: amount 超出安全精度范围（>1e15），got {}", 1e15));
    assert!(to_bigint(d(999_999_999_999_999.9), 6).is_ok());
    assert_eq!(AmountError::TooManyDecimals.message(), "to_bigint: decimals 不能超过 38");
}

#[test]
fn rounding_up_is_not_below_rounding_to_the_nearest() {
    for amount in [0.1, 0.7, 1.0000001, 2.5, 3.333333333] {
        let up = to_bigint_ceil(d(amount), 6).unwrap();
        let nearest = to_bigint(d(amount), 6).unwrap();
        assert!(!up.is_less(&nearest));
    }
    assert_eq!(to_bigint_ceil(d(1.0000001), 6), Ok(low(1_000_001)));
    assert_eq!(to_bigint(d(1.0000001), 6), Ok(low(1_000_000)));
}

#[test]
fn chain_amounts_convert_back() {
    assert_eq!(from_bigint(low(1_500_000), 6), Ok(d(1.5)));
    assert_eq!(
        from_bigint(low(123_456_789_012_345_678_901), 18),
        Ok(d(123_456_789_012_345_678_901u128 as f64 / 1e18))
    );
    assert_eq!(from_bigint(low(u128::MAX), 0), Ok(d(u128::MAX as f64)));
    let error = from_bigint(Uint256 { high: 1, low: 0 }, 0).err().unwrap();
    assert_eq!(error, AmountError::BeyondU128(Uint256 { high: 1, low: 0 }));
    assert_eq!(
        error.message(),
        "from_bigint: amount 超出 u128 范围: 340282366920938463463374607431768211456"
    );
    assert_eq!(
        AmountError::BeyondU128(Uint256::max()).message(),
        format!("from_bigint: amount 超出 u128 范围: {}", alloy::primitives::U256::MAX)
    );
}

#[test]
fn scales_are_the_powers_of_the_machine() {
    for decimals in 0..=38u8 {
        let wanted = format!("1e{decimals}").parse::<f64>().unwrap();
        assert_eq!(decimal_scale(decimals), d(wanted), "{decimals}");
        // From 33 decimals on, the precision of the power on the machine is not specified.
        if decimals <= 32 {
            assert_eq!(decimal_scale(decimals), d(10f64.powi(decimals as i32)), "{decimals}");
        }
    }
    assert_eq!(decimal_scale(255), d(1e255));
}

#[test]
fn rounding_up_grows_with_the_amount_and_adds_at_most_one() {
    let amounts = [
        0.0, 1e-30, 0.1, 0.5, 0.999999, 1.0 - f64::EPSILON / 2.0, 1.0, 1.0 + f64::EPSILON, 1.5, 41.9999999, 42.0,
        999_999_999_999_998.9, 999_999_999_999_999.0, 999_999_999_999_999.9,
    ];
    for decimals in 0..=38u8 {
        let mut before = low(0);
        for amount in amounts {
            let up = to_bigint_ceil(d(amount), decimals).unwrap();
            let nearest = to_bigint(d(amount), decimals).unwrap();
            assert!(!up.is_less(&before), "{amount} {decimals}");
            let next = Uint256 { high: nearest.high, low: nearest.low + 1 };
            assert!(up == nearest || up == next);
            before = up;
        }
    }
}

#[test]
fn wide_numbers_compare() {
    let big = Uint256 { high: 1, low: 0 };
    assert!(low(u128::MAX).is_less(&big));
    assert!(!big.is_less(&low(u128::MAX)));
    assert!(low(1).is_less(&low(2)));
    assert!(!low(2).is_less(&low(2)));
    assert!(big.is_less(&Uint256::max()));
}
