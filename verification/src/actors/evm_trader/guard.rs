//! The least output that a swap may be sent with.
use vstd::prelude::*;

use crate::actors::evm_watcher::{best_of, BestQuote, DexQuote};
use crate::actors::pricing::{is_proper_rate, lower_by};
use crate::double::Double;

verus! {

/// Why no least output can be set.
#[derive(Debug, Clone, Copy, PartialEq, Eq, Structural)]
pub enum GuardError {
    BadFreshOut,
    BadEconomicFloor,
    RateOutOfRange,
    PriceDeteriorated,
}

impl GuardError {
    /// What is said of it to people.
    pub open spec fn text(self) -> Seq<char> {
        match self {
            GuardError::BadFreshOut => "fresh_out 必须为正有限数"@,
            GuardError::BadEconomicFloor => "economic_floor 必须为正有限数"@,
            GuardError::RateOutOfRange => "min_out_bps 必须位于 [0, 10000)"@,
            GuardError::PriceDeteriorated => "价格已恶化"@,
        }
    }

    /// The message for people.
    pub fn message(self) -> (text: &'static str)
        ensures
            text@ == self.text(),
    {
        match self {
            GuardError::BadFreshOut => "fresh_out 必须为正有限数",
            GuardError::BadEconomicFloor => "economic_floor 必须为正有限数",
            GuardError::RateOutOfRange => "min_out_bps 必须位于 [0, 10000)",
            GuardError::PriceDeteriorated => "价格已恶化",
        }
    }
}

/// The least output: the fresh quote less the slippage allowed, but not below the economic floor.
pub open spec fn guarded_min(
    fresh_out: Double,
    economic_floor: Double,
    min_out_bps: Double,
) -> Result<Double, GuardError> {
    if !fresh_out.positive() {
        Err(GuardError::BadFreshOut)
    } else if !economic_floor.positive() {
        Err(GuardError::BadEconomicFloor)
    } else if !crate::actors::pricing::proper_rate(min_out_bps) {
        Err(GuardError::RateOutOfRange)
    } else if !economic_floor.at_most(fresh_out) {
        Err(GuardError::PriceDeteriorated)
    } else {
        Ok(
            fresh_out.product(crate::actors::pricing::lowered_by(min_out_bps)).larger(
                economic_floor,
            ),
        )
    }
}

/// Sets the least output of a swap.
pub fn guarded_amount_out_min(
    fresh_out: Double,
    economic_floor: Double,
    min_out_bps: Double,
) -> (result: Result<Double, GuardError>)
    ensures
        result == guarded_min(fresh_out, economic_floor, min_out_bps),
{
    if !fresh_out.is_positive() {
        return Err(GuardError::BadFreshOut);
    }
    if !economic_floor.is_positive() {
        return Err(GuardError::BadEconomicFloor);
    }
    if !is_proper_rate(min_out_bps) {
        return Err(GuardError::RateOutOfRange);
    }
    if !economic_floor.is_at_most(fresh_out) {
        return Err(GuardError::PriceDeteriorated);
    }
    Ok(fresh_out.times(lower_by(min_out_bps)).max(economic_floor))
}

/// No exchange gave a usable quote.
#[derive(Debug, Clone, Copy, PartialEq, Eq, Structural)]
pub struct NoExecutableQuote;

/// Chooses the exchange whose fresh quote brings the most.
pub fn select_best_executable_quote(candidates: &Vec<DexQuote>) -> (result: Result<
    BestQuote,
    NoExecutableQuote,
>)
    ensures
        match crate::actors::evm_watcher::best(candidates@, true) {
            Some(quote) => result == Ok::<BestQuote, NoExecutableQuote>(quote),
            None => result == Err::<BestQuote, NoExecutableQuote>(NoExecutableQuote),
        },
{
    match best_of(candidates, true) {
        Some(quote) => Ok(quote),
        None => Err(NoExecutableQuote),
    }
}

/// The least output is never below the economic floor, nor above the fresh quote.
pub proof fn law_least_output_is_not_below_the_floor(
    fresh_out: Double,
    economic_floor: Double,
    min_out_bps: Double,
    least: Double,
)
    requires
        guarded_min(fresh_out, economic_floor, min_out_bps) == Ok::<Double, GuardError>(least),
    ensures
        economic_floor.at_most(least),
        least.at_most(fresh_out),
{
    crate::actors::pricing::laws::lemma_lowered(min_out_bps);
    crate::double::rounding::lemma_powers();
    crate::double::rounding::lemma_units_monotone(0, fresh_out.magnitude());
    crate::double::laws::law_product_shrinks(
        fresh_out,
        crate::actors::pricing::lowered_by(min_out_bps),
    );
}

} // verus!
