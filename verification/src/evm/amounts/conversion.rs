//! What an amount comes to in the smallest units on chain.
use vstd::arithmetic::div_mod::*;
use vstd::arithmetic::power::*;
use vstd::arithmetic::power2::*;
use vstd::prelude::*;

use crate::decimal::MAX_POWER;
use crate::double::{Double, INFINITY_BITS, TWO_52, TWO_53};
use crate::evm::amounts::AmountError;

verus! {

/// The whole part and the rest of an amount make it up.
proof fn lemma_parts(u: nat)
    ensures
        ({
            let one: nat = crate::double::one_units();
            let o: real = one as real;
            &&& u as real / o == (crate::double::whole_down(u) as real) + ((u % one) as real / o)
            &&& 0 as real <= (u % one) as real / o
            &&& (u % one) as real / o < 1 as real
        }),
{
    crate::double::error::lemma_small();
    let one: nat = crate::double::one_units();
    let o: real = one as real;
    lemma_fundamental_div_mod(u as int, one as int);
    lemma_mod_bound(u as int, one as int);
    let q: nat = u / one;
    let r: nat = u % one;
    crate::double::error::lemma_cast_product(one as int, q as int);
    let a: real = u as real;
    let b: real = q as real;
    let c: real = r as real;
    assert(a == o * b + c);
    assert(a / o == b + c / o) by (nonlinear_arith)
        requires
            a == o * b + c,
            o > 0 as real,
    ;
    assert(0 as real <= c / o && c / o < 1 as real) by (nonlinear_arith)
        requires
            0 as real <= c,
            c < o,
            o > 0 as real,
    ;
}

/// Rounding a number of units to whole ones, up or to the nearest.
proof fn lemma_whole_rounding(w: nat)
    ensures
        ({
            let f: real = w as real / crate::double::one_units() as real;
            let up: real = crate::double::whole_up(w) as real;
            let near: real = crate::double::whole_nearest(w) as real;
            &&& f <= up
            &&& up < f + 1 as real
            &&& f <= near + 1 as real / 2 as real
            &&& near <= f + 1 as real / 2 as real
        }),
{
    crate::double::error::lemma_small();
    lemma_parts(w);
    let one: nat = crate::double::one_units();
    let o: real = one as real;
    let c: real = (w % one) as real;
    if w % one == 0 {
        assert(c / o == 0 as real) by (nonlinear_arith)
            requires
                c == 0 as real,
                o > 0 as real,
        ;
    } else {
        assert(c / o > 0 as real) by (nonlinear_arith)
            requires
                c > 0 as real,
                o > 0 as real,
        ;
    }
    if 2 * (w % one) >= one {
        assert(c / o >= 1 as real / 2 as real) by (nonlinear_arith)
            requires
                2 as real * c >= o,
                o > 0 as real,
        ;
    } else {
        assert(c / o <= 1 as real / 2 as real) by (nonlinear_arith)
            requires
                2 as real * c <= o,
                o > 0 as real,
        ;
    }
}

/// The scaled fraction of an amount is its rest times the scale, up to rounding.
proof fn lemma_fraction_value(amount: Double, decimals: u8)
    requires
        decimals <= MAX_POWER,
        amount.finite(),
        Double::nought().at_most(amount),
        amount.less(Double::quadrillion()),
    ensures
        ({
            let o: real = crate::double::one_units() as real;
            let rest: real = (amount.abs_units() % crate::double::one_units()) as real / o;
            let t: real = pow(10, decimals as nat) as real;
            crate::double::error::within(
                crate::evm::amounts::scaled_fraction(amount, decimals).abs_units() as real / o,
                rest * t,
                5 as real * (crate::double::error::roundoff() * t),
            )
        }),
{
    let one: nat = crate::double::one_units();
    let o: real = one as real;
    let k: nat = crate::evm::amounts::scale(decimals);
    let s: Double = crate::evm::amounts::scale_as_double(decimals);
    let r: nat = amount.abs_units() % one;
    let v: nat = s.abs_units();
    crate::double::error::lemma_small();
    crate::evm::amounts::laws::lemma_fraction_units(amount, decimals);
    crate::evm::amounts::lemma_fraction(amount, decimals);
    crate::evm::amounts::values::lemma_ten_below_sixteen(decimals as nat);
    lemma_pow2_strictly_increases((4 * decimals) as nat, 1023);
    crate::evm::amounts::values::lemma_whole_value(k);
    crate::double::error::lemma_value(s);
    lemma_parts(amount.abs_units());
    let f: Double = crate::evm::amounts::scaled_fraction(amount, decimals);
    let bits: nat = crate::double::nearest_bits(r * v, one);
    assert(bits < INFINITY_BITS) by {
        if bits >= INFINITY_BITS {
            crate::double::rounding::lemma_powers();
            crate::double::rounding::lemma_units_monotone(f.magnitude(), bits);
        }
    }
    crate::double::error::lemma_nearest_error(r * v, one);
    let w: nat = crate::double::magnitude_units(bits);
    let num: nat = r * v;
    crate::double::error::lemma_cast_product(r as int, v as int);
    crate::double::error::lemma_cast_product(w as int, one as int);
    crate::double::error::lemma_cast_product(TWO_53 as int, w * one - num);
    crate::double::error::lemma_cast_product(TWO_52 as int, one as int);
    crate::double::error::lemma_scaled_error(
        w as real,
        num as real,
        o,
        o,
        (TWO_52 as real) * o,
    );
    let a: real = r as real;
    let b: real = v as real;
    let n: real = num as real;
    assert(n / (o * o) == (a / o) * (b / o)) by (nonlinear_arith)
        requires
            n == a * b,
            o > 0 as real,
    ;
    let extra: real = (TWO_52 as real) * o;
    assert(extra / (o * o) == (TWO_52 as real) / o) by (nonlinear_arith)
        requires
            extra == (TWO_52 as real) * o,
            o > 0 as real,
    ;
    lemma_fraction_errors(w as real / o, a / o, b / o, k as real);
}

proof fn lemma_fraction_errors(f: real, rest: real, s: real, t: real)
    requires
        0 as real <= rest <= 1 as real,
        t >= 1 as real,
        s >= 0 as real,
        crate::double::error::within(s, t, crate::double::error::roundoff() * t),
        crate::double::error::within(
            f,
            rest * s,
            crate::double::error::roundoff() * (rest * s) + crate::double::error::roundoff()
                * crate::double::error::least_normal(),
        ),
    ensures
        crate::double::error::within(
            f,
            rest * t,
            5 as real * (crate::double::error::roundoff() * t),
        ),
{
    crate::double::error::lemma_small();
    let u: real = crate::double::error::roundoff();
    let least: real = crate::double::error::least_normal();
    crate::actors::pricing::estimates::lemma_share(t, t);
    crate::double::error::lemma_mul_order(least, t, u);
    crate::double::error::lemma_mul_order(0 as real, rest, s);
    crate::double::error::lemma_mul_order(rest, 1 as real, s);
    crate::double::error::lemma_mul(s, 0 as real, 0 as real);
    crate::double::error::lemma_mul(s, rest, rest);
    crate::double::error::lemma_mul(rest, s, s);
    assert(0 as real <= rest * s <= s);
    assert(rest * s <= 2 as real * t);
    crate::actors::pricing::estimates::lemma_share(rest * s, 2 as real * t);
    crate::double::error::lemma_mul(u, 2 as real, t);
    crate::double::error::lemma_mul(2 as real, u, t);
    let g: real = s - t;
    crate::double::error::lemma_mul_size(rest, g);
    let ag: real = crate::double::error::size_of(g);
    crate::double::error::lemma_mul_order(rest, 1 as real, ag);
    crate::double::error::lemma_mul(ag, rest, rest);
    crate::double::error::lemma_mul(rest, ag, ag);
    crate::double::error::lemma_mul(rest, s, t);
}

/// An amount comes to its value times ten to the power of the decimals: rounded up it is at least
/// that and less than one unit more, rounded to the nearest it is at most half a unit off, both up
/// to 2^-40 of the scale.
pub proof fn law_chain_amounts_are_the_value_times_the_scale(
    amount: Double,
    decimals: u8,
    round_up: bool,
    raw: nat,
)
    requires
        crate::evm::amounts::chain_amount_result(amount, decimals, round_up) == Ok::<
            nat,
            AmountError,
        >(raw),
    ensures
        ({
            let scale: real = pow(10, decimals as nat) as real;
            let exact: real = amount.value() * scale;
            let slack: real = scale / 0x100_0000_0000 as real;
            &&& round_up ==> exact - slack <= raw as real <= exact + 1 as real + slack
            &&& !round_up ==> crate::double::error::within(
                raw as real,
                exact,
                1 as real / 2 as real + slack,
            )
        }),
{
    let one: nat = crate::double::one_units();
    let o: real = one as real;
    let u: nat = amount.abs_units();
    let k: nat = crate::evm::amounts::scale(decimals);
    let t: real = k as real;
    let f: nat = crate::evm::amounts::scaled_fraction(amount, decimals).abs_units();
    let whole: nat = crate::double::whole_down(u);
    crate::evm::amounts::values::lemma_ten_below_sixteen(decimals as nat);
    lemma_fraction_value(amount, decimals);
    lemma_whole_rounding(f);
    lemma_parts(u);
    crate::actors::pricing::values::lemma_tolerance(t);
    crate::double::error::lemma_cast_product(whole as int, k as int);
    crate::double::error::lemma_value(amount);
    assert(amount.value() == u as real / o) by {
        crate::actors::pricing::values::lemma_constants();
        crate::double::error::lemma_order(Double::nought(), amount);
    }
    let rest: real = (u % one) as real / o;
    let v: real = amount.value();
    let x: real = whole as real;
    assert(v * t == x * t + rest * t) by {
        crate::double::error::lemma_mul(t, x, rest);
        crate::double::error::lemma_mul(t, v, v);
        crate::double::error::lemma_mul(x, t, t);
        crate::double::error::lemma_mul(rest, t, t);
    }
}

} // verus!
