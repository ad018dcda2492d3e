//! What converting amounts does to their values.
use vstd::arithmetic::power::*;
use vstd::arithmetic::power2::*;
use vstd::prelude::*;

use crate::double::{Double, INFINITY_BITS, TWO_53};
use crate::evm::amounts::AmountError;

verus! {

/// A whole number of at most 2^1023 is a finite double within a rounding of itself.
pub proof fn lemma_whole_value(n: nat)
    requires
        n <= pow2(1023),
    ensures
        Double::whole(false, n).finite(),
        !Double::whole(false, n).negative(),
        Double::whole(false, n).value() >= 0 as real,
        crate::double::error::within(
            Double::whole(false, n).value(),
            n as real,
            crate::double::error::roundoff() * (n as real),
        ),
{
    crate::double::rounding::lemma_powers();
    crate::double::error::lemma_small();
    let one: nat = crate::double::one_units();
    let top: nat = 0x7fe0_0000_0000_0000;
    assert(top / 0x0010_0000_0000_0000nat == 2046);
    assert(top % 0x0010_0000_0000_0000nat == 0);
    lemma_pow2_adds(52, 2045);
    lemma_pow2_adds(1023, 1074);
    assert(crate::double::magnitude_units(top) == pow2(1023) * one);
    crate::double::rounding::lemma_nearest_exact(top);
    assert((n * one) * 1 <= (pow2(1023) * one) * 1) by (nonlinear_arith)
        requires
            n <= pow2(1023),
    ;
    crate::double::rounding::lemma_nearest_monotone(n * one, 1, pow2(1023) * one, 1);
    let bits: nat = crate::double::nearest_bits(n * one, 1);
    assert(bits < INFINITY_BITS);
    crate::double::error::lemma_nearest_error(n * one, 1);
    let d: Double = Double::whole(false, n);
    crate::double::error::lemma_value(d);
    let w: int = crate::double::magnitude_units(bits) as int;
    let o: real = one as real;
    let v: real = d.value();
    let u: real = crate::double::error::roundoff();
    let x: real = n as real;
    crate::double::error::lemma_cast_product(n as int, one as int);
    crate::double::error::lemma_cast_product(TWO_53 as int, w - n * one);
    assert(w as real == v * o);
    // TWO_53 * (v - x) * o lies within x * o
    let gap: real = v - x;
    assert(o * gap == v * o - x * o) by {
        crate::double::error::lemma_mul(o, v, x);
        crate::double::error::lemma_mul(v, o, o);
        crate::double::error::lemma_mul(x, o, o);
    }
    let t: real = TWO_53 as real;
    assert(-(x * o) <= t * (o * gap) <= x * o);
    assert(u * t == 1 as real) by (nonlinear_arith)
        requires
            u == 1 as real / t,
            t == 9007199254740992 as real,
    ;
    crate::double::error::lemma_mul_order(t * (o * gap), x * o, u);
    crate::double::error::lemma_mul_order(-(x * o), t * (o * gap), u);
    crate::double::error::lemma_mul(u, t, o * gap);
    crate::double::error::lemma_mul(u, x, o);
    crate::double::error::lemma_mul(u, 0 as real, x * o);
    crate::double::error::lemma_mul(1 as real, o * gap, 0 as real);
    assert(-((u * x) * o) <= o * gap <= (u * x) * o);
    let b: real = u * x;
    if gap > b {
        lemma_scaled_less(b, gap, o);
        crate::double::error::lemma_mul(o, b, b);
    }
    if gap < -b {
        lemma_scaled_less(gap, -b, o);
        crate::double::error::lemma_mul(o, 0 as real, b);
        crate::double::error::lemma_mul(o, b, b);
    }
}

pub proof fn lemma_scaled_less(a: real, b: real, c: real)
    requires
        a < b,
        c > 0 as real,
    ensures
        c * a < c * b,
{
    assert(c * a < c * b) by (nonlinear_arith)
        requires
            a < b,
            c > 0 as real,
    ;
}

/// A power of ten is at most the power of sixteen.
pub proof fn lemma_ten_below_sixteen(n: nat)
    ensures
        0 < pow(10, n) <= pow2(4 * n),
    decreases n,
{
    if n == 0 {
        lemma_pow0(10);
        lemma2_to64();
    } else {
        let m: nat = (n - 1) as nat;
        lemma_ten_below_sixteen(m);
        lemma_pow_adds(10, m, 1);
        lemma_pow1(10);
        lemma_pow2_adds(4 * m, 4);
        lemma2_to64();
        let a: int = pow(10, m);
        let b: int = pow2(4 * m) as int;
        assert(0 < a * 10 <= b * 16) by (nonlinear_arith)
            requires
                0 < a <= b,
        ;
    }
}

/// Units on chain stand for their number over ten to the power of the decimals.
pub proof fn law_plain_amounts_are_units_over_the_scale(number: nat, decimals: u8, amount: Double)
    requires
        crate::evm::amounts::plain_amount(number, decimals) == Ok::<Double, AmountError>(amount),
        amount.finite(),
        amount.value() >= crate::double::error::least_normal(),
    ensures
        crate::actors::pricing::values::nearly(
            amount.value() * (pow(10, decimals as nat) as real),
            number as real,
            number as real,
        ),
{
    let k: nat = crate::evm::amounts::scale(decimals);
    lemma_ten_below_sixteen(decimals as nat);
    if 4 * decimals < 1023 {
        lemma_pow2_strictly_increases((4 * decimals) as nat, 1023);
    }
    lemma_pow2_strictly_increases(128, 1023);
    assert(pow2(128) == crate::evm::amounts::two_128()) by {
        lemma2_to64();
        lemma_pow2_adds(64, 64);
    }
    lemma_whole_value(number);
    lemma_whole_value(k);
    let top: Double = Double::whole(false, number);
    let scale: Double = Double::whole(false, k);
    crate::actors::pricing::values::lemma_divisor(top, scale);
    crate::double::error::lemma_quotient_error(top, scale);
    lemma_plain_errors(
        number as real,
        k as real,
        top.value(),
        scale.value(),
        amount.value(),
    );
}

proof fn lemma_plain_errors(n: real, k: real, top: real, scale: real, a: real)
    requires
        n >= 0 as real,
        k >= 0 as real,
        scale > 0 as real,
        top >= 0 as real,
        a >= crate::double::error::least_normal(),
        crate::double::error::within(top, n, crate::double::error::roundoff() * n),
        crate::double::error::within(scale, k, crate::double::error::roundoff() * k),
        crate::double::error::within(
            a,
            top / scale,
            crate::double::error::roundoff() * crate::double::error::size_of(top / scale)
                + crate::double::error::half_unit(),
        ),
    ensures
        crate::actors::pricing::values::nearly(a * k, n, n),
{
    crate::double::error::lemma_small();
    let u: real = crate::double::error::roundoff();
    let h: real = crate::double::error::half_unit();
    let least: real = crate::double::error::least_normal();
    let ratio: real = top / scale;
    crate::double::error::lemma_divided(top, scale);
    crate::actors::pricing::estimates::lemma_share(n, n);
    crate::actors::pricing::estimates::lemma_share(k, k);
    crate::double::error::lemma_mul_size(scale, ratio);
    let r: real = crate::double::error::size_of(ratio);
    assert(scale * r == top);
    // a * scale against top
    let e: real = a - ratio;
    let eb: real = u * r + h;
    crate::double::error::lemma_mul_order(e, eb, scale);
    crate::double::error::lemma_mul_order(-eb, e, scale);
    crate::double::error::lemma_mul(scale, 0 as real, eb);
    crate::double::error::lemma_mul(scale, a, ratio);
    crate::double::error::lemma_mul(scale, u * r, h);
    crate::double::error::lemma_mul(scale, u, r);
    crate::double::error::lemma_mul(u, scale, r);
    assert(scale * (u * r) == u * top);
    // half a unit is at most a rounding of the amount
    crate::double::error::lemma_mul_order(least, a, u);
    crate::double::error::lemma_mul_order(h, u * a, scale);
    crate::double::error::lemma_mul(scale, u, a);
    crate::double::error::lemma_mul(u, scale, a);
    let y: real = scale * a;
    assert(scale * h <= u * y);
    assert(crate::double::error::within(y, top, u * top + u * y));
    // a * k against a * scale
    let g: real = k - scale;
    crate::double::error::lemma_mul_size(a, g);
    crate::double::error::lemma_mul_order(crate::double::error::size_of(g), u * k, a);
    crate::double::error::lemma_mul(a, u, k);
    crate::double::error::lemma_mul(u, a, k);
    crate::double::error::lemma_mul(a, k, scale);
    crate::double::error::lemma_mul(a, scale, scale);
    let z: real = a * k;
    assert(crate::double::error::within(z, y, u * z));
    crate::double::error::lemma_mul_order(0 as real, k, a);
    crate::double::error::lemma_mul(a, 0 as real, 0 as real);
    crate::double::error::lemma_mul_order(0 as real, a, scale);
    crate::double::error::lemma_mul(scale, 0 as real, 0 as real);
    crate::actors::pricing::estimates::lemma_share(z, z);
    crate::actors::pricing::estimates::lemma_share(y, y);
    crate::actors::pricing::estimates::lemma_share(top, top);
    assert(z <= 2 as real * n && y <= 2 as real * n && top <= 2 as real * n);
    crate::actors::pricing::estimates::lemma_share(z, 2 as real * n);
    crate::actors::pricing::estimates::lemma_share(y, 2 as real * n);
    crate::actors::pricing::estimates::lemma_share(top, 2 as real * n);
    crate::double::error::lemma_mul(u, 2 as real, n);
    crate::double::error::lemma_mul(2 as real, u, n);
    crate::actors::pricing::values::lemma_tolerance(n);
}

} // verus!
