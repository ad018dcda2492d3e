//! How far a swap may fall short of its fresh quote.
use vstd::prelude::*;

use crate::double::Double;

verus! {

/// A quote less the slippage allowed, up to rounding.
proof fn lemma_reduced(fresh: Double, rate: Double)
    requires
        fresh.positive(),
        crate::actors::pricing::proper_rate(rate),
        fresh.value() >= crate::double::error::least_normal(),
    ensures
        fresh.product(crate::actors::pricing::lowered_by(rate)).finite(),
        crate::double::error::within(
            fresh.product(crate::actors::pricing::lowered_by(rate)).value(),
            fresh.value() * (1 as real - rate.value() / 10000 as real),
            24 as real * (crate::double::error::roundoff() * fresh.value()),
        ),
{
    let lower: Double = crate::actors::pricing::lowered_by(rate);
    let reduced: Double = fresh.product(lower);
    crate::double::error::lemma_small();
    assert(reduced.finite()) by {
        crate::actors::pricing::laws::lemma_lowered(rate);
        crate::actors::pricing::laws::lemma_nought();
        crate::double::rounding::lemma_powers();
        crate::double::rounding::lemma_units_monotone(0, fresh.magnitude());
        crate::double::laws::law_product_shrinks(fresh, lower);
        crate::actors::pricing::values::lemma_not_infinite(reduced, fresh);
    }
    crate::actors::pricing::values::lemma_lowered_value(rate);
    crate::actors::pricing::values::lemma_scaled(
        fresh,
        lower,
        1 as real - crate::actors::pricing::values::fraction(rate),
    );
}

/// The larger of two numbers, one of which is known up to a few roundings.
proof fn lemma_larger(least: real, reduced: real, floor: real, exact: real, scale: real)
    requires
        scale >= 0 as real,
        crate::double::error::within(
            reduced,
            exact,
            24 as real * (crate::double::error::roundoff() * scale),
        ),
        least == reduced || least == floor,
        least >= reduced,
        least >= floor,
    ensures
        least == floor || crate::actors::pricing::values::nearly(least, exact, scale),
        0x100_0000_0000 as real * (exact - least) <= scale,
{
    crate::actors::pricing::values::lemma_tolerance(scale);
}

/// The least output of a swap is the floor, or the fresh quote less the slippage allowed where
/// that is more.
pub proof fn law_least_output_is_the_quote_less_slippage(
    fresh: Double,
    floor: Double,
    rate: Double,
    least: Double,
)
    requires
        crate::actors::evm_trader::guard::guarded_min(fresh, floor, rate) == Ok::<
            Double,
            crate::actors::evm_trader::guard::GuardError,
        >(least),
        fresh.value() >= crate::double::error::least_normal(),
    ensures
        ({
            let reduced: real = fresh.value() * (1 as real - rate.value() / 10000 as real);
            &&& least.value() == floor.value() || crate::actors::pricing::values::nearly(
                least.value(),
                reduced,
                fresh.value(),
            )
            &&& least.value() >= floor.value()
            &&& 0x100_0000_0000 as real * (reduced - least.value()) <= fresh.value()
        }),
{
    let reduced: Double = fresh.product(crate::actors::pricing::lowered_by(rate));
    crate::actors::pricing::values::lemma_positive(fresh);
    crate::actors::pricing::values::lemma_positive(floor);
    lemma_reduced(fresh, rate);
    crate::double::error::lemma_order(reduced, floor);
    crate::double::error::lemma_order(floor, reduced);
    let exact: real = fresh.value() * (1 as real - rate.value() / 10000 as real);
    lemma_larger(least.value(), reduced.value(), floor.value(), exact, fresh.value());
}

} // verus!
