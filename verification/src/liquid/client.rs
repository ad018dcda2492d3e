//! Orders as the exchange takes them.
use vstd::arithmetic::power::*;
use vstd::prelude::*;

use crate::decimal::magnitude::magnitude;
use crate::decimal::print::print_double;
use crate::decimal::{power_of_ten, print_unsigned};
use crate::double::Double;
use crate::text::join;
pub use crate::liquid::markets::{validate_market_identity, LiquidMarketRules};
pub use crate::liquid::replies::{ensure_cancel_succeeded, OrderResult, OrderStatus};

verus! {

/// The exchange takes prices of at most this many significant figures.
pub const PRICE_FIGURES: i32 = 5;

/// A price and a size together have at most this many decimals.
pub const SPOT_DECIMALS: u8 = 8;

/// An order rounded to the precision of its market.
#[derive(Debug, Clone, Copy, PartialEq, Eq, Structural)]
pub struct NormalizedSpotOrder {
    pub price: Double,
    pub size: Double,
}

/// Why an order cannot be placed.
#[derive(Debug, Clone, Copy, PartialEq, Eq, Structural)]
pub enum OrderError {
    PriceNotPositive,
    SizeNotPositive,
    TooManySizeDecimals,
    SizeTruncatedToZero,
    /// The configured size is not a multiple of the market's smallest step.
    SizeNotRepresentable { size: Double, size_decimals: u8 },
}

impl OrderError {
    /// What is said of it to people.
    pub open spec fn text(self) -> Seq<char> {
        match self {
            OrderError::PriceNotPositive => "price 必须为正有限数"@,
            OrderError::SizeNotPositive => "size 必须为正有限数"@,
            OrderError::TooManySizeDecimals => "HL spot size decimals 不能超过 8"@,
            OrderError::SizeTruncatedToZero => "size 按市场精度截断后为 0"@,
            OrderError::SizeNotRepresentable { size, size_decimals } => "ORDER_AMOUNT="@
                + crate::decimal::print::shortest_text(size) + " 无法用 HL szDecimals="@
                + crate::decimal::printed(size_decimals as nat) + " 精确表示"@,
        }
    }

    /// The message for people.
    pub fn message(self) -> (text: String)
        ensures
            text@ == self.text(),
    {
        match self {
            OrderError::PriceNotPositive => "price 必须为正有限数".to_owned(),
            OrderError::SizeNotPositive => "size 必须为正有限数".to_owned(),
            OrderError::TooManySizeDecimals => "HL spot size decimals 不能超过 8".to_owned(),
            OrderError::SizeTruncatedToZero => "size 按市场精度截断后为 0".to_owned(),
            OrderError::SizeNotRepresentable { size, size_decimals } => {
                let shown: String = join("ORDER_AMOUNT=", print_double(size).as_str());
                let told: String = join(
                    join(shown.as_str(), " 无法用 HL szDecimals=").as_str(),
                    print_unsigned(size_decimals as u64).as_str(),
                );
                join(told.as_str(), " 精确表示")
            },
        }
    }
}

/// How many decimals show a number with `figures` significant figures.
pub open spec fn places_for_figures(value: Double, figures: int) -> int {
    let places: int = figures - 1 - crate::decimal::magnitude::decimal_magnitude(value);
    if places < 0 {
        0
    } else if places > i32::MAX {
        i32::MAX as int
    } else {
        places
    }
}

/// The number of decimals of a price.
pub open spec fn price_places(price: Double, size_decimals: int) -> int {
    let places: int = places_for_figures(price, PRICE_FIGURES as int);
    if SPOT_DECIMALS - size_decimals < places {
        SPOT_DECIMALS - size_decimals
    } else {
        places
    }
}

/// Ten to the power of `places`, as a double.
pub open spec fn decimal_factor(places: int) -> Double {
    Double::whole(false, pow(10, places as nat) as nat)
}

/// A price in steps of its last decimal, before rounding. A price that is within 10^-10 of a step,
/// in units of the step, counts as that step.
pub open spec fn price_steps(is_buy: bool, price: Double, places: int) -> Double {
    let steps: Double = price.product(decimal_factor(places));
    if is_buy {
        steps.difference(Double::tenth_of_billionth())
    } else {
        steps.sum(Double::tenth_of_billionth())
    }
}

/// The whole steps of a price, away from the better price: up for a buyer, down for a seller.
pub open spec fn whole_price_steps(is_buy: bool, price: Double, places: int) -> Double {
    if is_buy {
        price_steps(is_buy, price, places).rounded_up()
    } else {
        price_steps(is_buy, price, places).rounded_down()
    }
}

/// A price rounded to `places` decimals.
pub open spec fn price_rounded(is_buy: bool, price: Double, places: int) -> Double {
    whole_price_steps(is_buy, price, places).quotient(decimal_factor(places))
}

/// A size in steps of its last decimal, before it is cut off, with the same tolerance.
pub open spec fn size_steps(size: Double, places: int) -> Double {
    size.product(decimal_factor(places)).sum(Double::tenth_of_billionth())
}

/// A size cut off to `places` decimals.
pub open spec fn size_truncated(size: Double, places: int) -> Double {
    size_steps(size, places).rounded_down().quotient(decimal_factor(places))
}

/// The order that the exchange takes in place of the one wanted, or why there is none.
pub open spec fn normalized_order(
    is_buy: bool,
    price: Double,
    size: Double,
    size_decimals: u8,
) -> Result<NormalizedSpotOrder, OrderError> {
    if !price.positive() {
        Err(OrderError::PriceNotPositive)
    } else if !size.positive() {
        Err(OrderError::SizeNotPositive)
    } else if size_decimals > SPOT_DECIMALS {
        Err(OrderError::TooManySizeDecimals)
    } else {
        let cut: Double = size_truncated(size, size_decimals as int);
        if !Double::nought().less(cut) {
            Err(OrderError::SizeTruncatedToZero)
        } else {
            Ok(
                NormalizedSpotOrder {
                    price: price_rounded(
                        is_buy,
                        price,
                        price_places(price, size_decimals as int),
                    ),
                    size: cut,
                },
            )
        }
    }
}

/// How many decimals show a number with `significant_figures` significant figures.
pub fn decimal_places_for_significant_figures(value: Double, significant_figures: i32) -> (places:
    u32)
    ensures
        places == places_for_figures(value, significant_figures as int),
{
    let places: i64 = significant_figures as i64 - 1 - magnitude(value) as i64;
    if places < 0 {
        0
    } else if places > i32::MAX as i64 {
        i32::MAX as u32
    } else {
        places as u32
    }
}

fn factor_of(places: u32) -> (factor: Double)
    requires
        places <= SPOT_DECIMALS,
    ensures
        factor == decimal_factor(places as int),
{
    Double::from_integer(power_of_ten(places))
}

/// Rounds an order to the precision of its market.
pub fn normalize_spot_order(
    is_buy: bool,
    price: Double,
    size: Double,
    size_decimals: u8,
) -> (result: Result<NormalizedSpotOrder, OrderError>)
    ensures
        result == normalized_order(is_buy, price, size, size_decimals),
{
    if !price.is_positive() {
        return Err(OrderError::PriceNotPositive);
    }
    if !size.is_positive() {
        return Err(OrderError::SizeNotPositive);
    }
    if size_decimals > SPOT_DECIMALS {
        return Err(OrderError::TooManySizeDecimals);
    }
    let significant: u32 = decimal_places_for_significant_figures(price, PRICE_FIGURES);
    let allowed: u32 = (SPOT_DECIMALS - size_decimals) as u32;
    let places: u32 = if allowed < significant {
        allowed
    } else {
        significant
    };
    let epsilon: Double = Double::tenth_of_billionth();
    let price_factor: Double = factor_of(places);
    let steps: Double = price.times(price_factor);
    let whole: Double = if is_buy {
        steps.minus(epsilon).ceil()
    } else {
        steps.plus(epsilon).floor()
    };
    let normalized_price: Double = whole.over(price_factor);
    let size_factor: Double = factor_of(size_decimals as u32);
    let normalized_size: Double = size.times(size_factor).plus(epsilon).floor().over(size_factor);
    if !Double::nought().is_less(normalized_size) {
        return Err(OrderError::SizeTruncatedToZero);
    }
    Ok(NormalizedSpotOrder { price: normalized_price, size: normalized_size })
}

/// Whether a configured size survives truncation up to a relative and absolute 10^-12.
pub open spec fn size_representable(size: Double, cut: Double) -> bool {
    cut.difference(size).absolute().at_most(
        size.absolute().product(Double::trillionth()).sum(Double::trillionth()),
    )
}

/// What holds of a configured order size: it can be ordered, and truncation leaves it as it is.
pub open spec fn configured_size_result(size: Double, size_decimals: u8) -> Result<
    (),
    OrderError,
> {
    match normalized_order(true, Double::one(), size, size_decimals) {
        Err(error) => Err(error),
        Ok(order) => if size_representable(size, order.size) {
            Ok(())
        } else {
            Err(OrderError::SizeNotRepresentable { size, size_decimals })
        },
    }
}

/// Refuses a configured order size that the market cannot represent.
pub fn validate_configured_size(size: Double, size_decimals: u8) -> (result: Result<
    (),
    OrderError,
>)
    ensures
        result == configured_size_result(size, size_decimals),
{
    let normalized: Double = match normalize_spot_order(true, Double::one(), size, size_decimals) {
        Ok(order) => order.size,
        Err(error) => {
            return Err(error);
        },
    };
    let tolerance: Double = size.abs().times(Double::trillionth()).plus(Double::trillionth());
    if normalized.minus(size).abs().is_at_most(tolerance) {
        Ok(())
    } else {
        Err(OrderError::SizeNotRepresentable { size, size_decimals })
    }
}

} // verus!
