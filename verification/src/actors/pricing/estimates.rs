//! Estimates behind the break-even point of a purchase on chain.
use vstd::prelude::*;

verus! {

/// The errors of the most that may be paid per token add up to a few roundings.
pub proof fn lemma_most_price_errors(
    x: real,
    size: real,
    worst: real,
    gas: real,
    less: real,
    more: real,
    proceeds: real,
    rest: real,
    spending: real,
    most: real,
)
    requires
        x == size * worst,
        worst >= crate::double::error::least_normal(),
        size > 0 as real,
        gas >= 0 as real,
        0 as real <= less <= 1 as real,
        1 as real <= more <= 3 as real,
        crate::double::error::within(
            proceeds,
            x * less,
            32 as real * (crate::double::error::roundoff() * x),
        ),
        crate::double::error::within(
            rest,
            proceeds - gas,
            crate::double::error::roundoff() * crate::double::error::size_of(proceeds - gas),
        ),
        crate::double::error::within(
            spending,
            size * more,
            24 as real * (crate::double::error::roundoff() * size),
        ),
        crate::double::error::within(
            most,
            rest / spending,
            crate::double::error::roundoff() * crate::double::error::size_of(rest / spending)
                + crate::double::error::half_unit(),
        ),
    ensures
        spending > 0 as real,
        crate::double::error::within(
            most * (size * more),
            x * less - gas,
            200 as real * (crate::double::error::roundoff() * (x + gas)),
        ),
        crate::double::error::size_of(most * (size * more)) <= 4 as real * (x + gas),
{
    crate::double::error::lemma_small();
    let u: real = crate::double::error::roundoff();
    let h: real = crate::double::error::half_unit();
    let least: real = crate::double::error::least_normal();
    let s: real = x + gas;
    let w: real = u * s;
    let uz: real = u * size;
    crate::double::error::lemma_mul_order(0 as real, worst, size);
    crate::double::error::lemma_mul(size, 0 as real, 0 as real);
    assert(x >= 0 as real);
    lemma_share(x, s);
    lemma_share(size, size);
    lemma_share(s, s);
    crate::double::error::lemma_mul_order(0 as real, less, x);
    crate::double::error::lemma_mul_order(less, 1 as real, x);
    assert(0 as real <= x * less <= x);
    let ap: real = crate::double::error::size_of(proceeds - gas);
    assert(ap <= 2 as real * s);
    lemma_share(ap, 2 as real * s);
    assert(u * (2 as real * s) == 2 as real * w) by {
        crate::double::error::lemma_mul(u, s, s);
    }
    assert(crate::double::error::within(rest, x * less - gas, 34 as real * w));
    crate::double::error::lemma_mul_order(1 as real, more, size);
    crate::double::error::lemma_mul_order(more, 3 as real, size);
    assert(size <= 2 as real * spending && spending <= 4 as real * size);
    let ratio: real = rest / spending;
    crate::double::error::lemma_divided(rest, spending);
    crate::double::error::lemma_mul_size(spending, ratio);
    let ar: real = crate::double::error::size_of(ratio);
    let at: real = crate::double::error::size_of(rest);
    assert(spending * ar == at);
    assert(at <= 2 as real * s);
    // What half a unit of the price comes to.
    let hs: real = spending * h;
    assert(0 as real <= hs <= 4 as real * w) by {
        crate::double::error::lemma_mul_order(0 as real, spending, h);
        crate::double::error::lemma_mul_order(spending, 4 as real * size, h);
        crate::double::error::lemma_mul(h, spending, spending);
        crate::double::error::lemma_mul(h, size, size);
        crate::double::error::lemma_mul(size, h, h);
        assert(h * (4 as real * size) == 4 as real * (h * size)) by {
            crate::double::error::lemma_mul(h, 4 as real, size);
            crate::double::error::lemma_mul(4 as real, h, size);
        }
        crate::double::error::lemma_mul_order(least, worst, u);
        assert(h <= u * worst);
        crate::double::error::lemma_mul_order(h, u * worst, size);
        crate::double::error::lemma_mul(size, u, worst);
        crate::double::error::lemma_mul(u, size, worst);
        assert(size * (u * worst) == u * x);
        assert(h * (0 as real) == 0 as real) by {
            crate::double::error::lemma_mul(h, 0 as real, 0 as real);
        }
    }
    let ut: real = u * at;
    lemma_share(at, 2 as real * s);
    let e: real = most - ratio;
    let eb: real = u * ar + h;
    assert(spending * eb == ut + hs) by {
        crate::double::error::lemma_mul(spending, u * ar, h);
        crate::double::error::lemma_mul(spending, u, ar);
        crate::double::error::lemma_mul(u, spending, ar);
    }
    crate::double::error::lemma_mul_order(e, eb, spending);
    crate::double::error::lemma_mul_order(-eb, e, spending);
    crate::double::error::lemma_mul(spending, most, ratio);
    crate::double::error::lemma_mul(spending, 0 as real, eb);
    assert(-(6 as real * w) <= spending * most - rest <= 6 as real * w);
    let am: real = crate::double::error::size_of(most);
    crate::double::error::lemma_mul_size(spending, most);
    assert(spending * am <= 3 as real * s);
    assert(am * uz <= 6 as real * w) by {
        crate::double::error::lemma_mul_order(size, 2 as real * spending, am);
        crate::double::error::lemma_mul(am, 2 as real, spending);
        crate::double::error::lemma_mul(2 as real, am, spending);
        crate::double::error::lemma_mul(am, spending, spending);
        assert(am * size <= 6 as real * s);
        crate::double::error::lemma_mul_order(am * size, 6 as real * s, u);
        crate::double::error::lemma_mul(am, u, size);
        crate::double::error::lemma_mul(u, am, size);
        crate::double::error::lemma_mul(u, 6 as real, s);
        crate::double::error::lemma_mul(6 as real, u, s);
    }
    let g: real = spending - size * more;
    let bound: real = 24 as real * uz;
    assert(-(144 as real * w) <= most * g <= 144 as real * w) by {
        crate::double::error::lemma_mul_size(most, g);
        crate::double::error::lemma_mul_order(crate::double::error::size_of(g), bound, am);
        crate::double::error::lemma_mul(am, 24 as real, uz);
        crate::double::error::lemma_mul(24 as real, am, uz);
    }
    crate::double::error::lemma_mul(most, spending, size * more);
}

/// One rounding of a part is at most one of the whole.
pub proof fn lemma_share(part: real, whole: real)
    requires
        0 as real <= part <= whole,
    ensures
        0 as real <= crate::double::error::roundoff() * part,
        crate::double::error::roundoff() * part <= crate::double::error::roundoff() * whole,
        1_000_000 as real * (crate::double::error::roundoff() * part) <= part,
{
    crate::double::error::lemma_small();
    let u: real = crate::double::error::roundoff();
    crate::double::error::lemma_mul_order(part, whole, u);
    crate::double::error::lemma_mul_order(0 as real, part, u);
    crate::double::error::lemma_mul(u, part, 0 as real);
    crate::double::error::lemma_mul(u, 0 as real, 0 as real);
    crate::double::error::lemma_mul_order(1_000_000 as real * u, 1 as real, part);
    crate::double::error::lemma_mul(part, 1_000_000 as real, u);
    crate::double::error::lemma_mul(1_000_000 as real, part, u);
    crate::double::error::lemma_mul(part, u, u);
}

/// The errors of the threshold of a purchase on chain add up to less than the tolerance.
pub proof fn lemma_sell_economic_errors(
    bid: real,
    most: real,
    volume: real,
    net: real,
    stake: real,
    e: real,
)
    requires
        bid > 0 as real,
        volume > 0 as real,
        stake >= 0 as real,
        crate::double::error::within(
            most * volume,
            net,
            200 as real * (crate::double::error::roundoff() * stake),
        ),
        crate::double::error::size_of(most * volume) <= 4 as real * stake,
        crate::double::error::within(
            e * bid,
            10000 as real * (bid - most),
            80000 as real * (crate::double::error::roundoff() * (bid
                + crate::double::error::size_of(most))),
        ),
    ensures
        crate::actors::pricing::values::nearly(
            e * (bid * volume),
            10000 as real * (bid * volume - net),
            10000 as real * (bid * volume + stake),
        ),
{
    crate::double::error::lemma_small();
    let u: real = crate::double::error::roundoff();
    let am: real = crate::double::error::size_of(most);
    let amv: real = crate::double::error::size_of(most * volume);
    crate::double::error::lemma_mul_size(most, volume);
    assert(am * volume == amv);
    let bv: real = bid * volume;
    crate::double::error::lemma_mul_order(0 as real, volume, bid);
    crate::double::error::lemma_mul(bid, 0 as real, 0 as real);
    assert(bv >= 0 as real);
    let gap: real = e * bid - 10000 as real * (bid - most);
    let bound: real = 80000 as real * (u * (bid + am));
    assert(volume * gap == e * bv - 10000 as real * (bv - most * volume)) by {
        crate::double::error::lemma_mul(volume, e * bid, 10000 as real * (bid - most));
        crate::double::error::lemma_mul(volume, e, bid);
        crate::double::error::lemma_mul(e, volume, bid);
        crate::double::error::lemma_mul(volume, bid, bid);
        crate::double::error::lemma_mul(volume, 10000 as real, bid - most);
        crate::double::error::lemma_mul(10000 as real, volume, bid - most);
        crate::double::error::lemma_mul(volume, bid, most);
        crate::double::error::lemma_mul(volume, most, most);
    }
    assert(volume * bound == 80000 as real * (u * (bv + amv))) by {
        crate::double::error::lemma_mul(volume, 80000 as real, u * (bid + am));
        crate::double::error::lemma_mul(80000 as real, volume, u * (bid + am));
        crate::double::error::lemma_mul(volume, u, bid + am);
        crate::double::error::lemma_mul(u, volume, bid + am);
        crate::double::error::lemma_mul(volume, bid, am);
        crate::double::error::lemma_mul(volume, am, am);
        crate::double::error::lemma_mul(volume, bid, bid);
    }
    crate::double::error::lemma_mul_order(gap, bound, volume);
    crate::double::error::lemma_mul_order(-bound, gap, volume);
    crate::double::error::lemma_mul(volume, 0 as real, bound);
    let total: real = bv + stake;
    lemma_share(bv + amv, 4 as real * total);
    lemma_share(stake, total);
    crate::double::error::lemma_mul(u, 4 as real, total);
    crate::double::error::lemma_mul(4 as real, u, total);
    crate::actors::pricing::values::lemma_tolerance(total);
}

/// What the hedge brings less the fee, up to rounding.
pub proof fn lemma_proceeds_errors(x: real, c: real, f: real, exact: real, proceeds: real)
    requires
        x >= crate::double::error::least_normal(),
        0 as real <= f <= 1 as real,
        crate::double::error::within(c, x, 2 as real * (crate::double::error::roundoff() * x)),
        crate::double::error::within(f, exact, 4 as real * crate::double::error::roundoff()),
        crate::double::error::within(
            proceeds,
            c * f,
            crate::double::error::roundoff() * crate::double::error::size_of(c * f)
                + crate::double::error::half_unit(),
        ),
    ensures
        crate::double::error::within(
            proceeds,
            x * exact,
            32 as real * (crate::double::error::roundoff() * x),
        ),
{
    crate::double::error::lemma_small();
    let u: real = crate::double::error::roundoff();
    let h: real = crate::double::error::half_unit();
    let least: real = crate::double::error::least_normal();
    let w: real = u * x;
    lemma_share(x, x);
    crate::double::error::lemma_mul_order(least, x, u);
    assert(h <= w);
    let e: real = c - x;
    crate::double::error::lemma_mul_order(e, 2 as real * w, f);
    crate::double::error::lemma_mul_order(-(2 as real * w), e, f);
    crate::double::error::lemma_mul(f, c, x);
    crate::double::error::lemma_mul(f, x, x);
    crate::double::error::lemma_mul(f, 0 as real, 2 as real * w);
    crate::double::error::lemma_mul_order(f, 1 as real, 2 as real * w);
    crate::double::error::lemma_mul(f, 2 as real * w, w);
    assert(-(2 as real * w) <= c * f - x * f <= 2 as real * w);
    let d: real = f - exact;
    crate::double::error::lemma_mul_order(d, 4 as real * u, x);
    crate::double::error::lemma_mul_order(-(4 as real * u), d, x);
    crate::double::error::lemma_mul(x, f, exact);
    crate::double::error::lemma_mul(x, 0 as real, 4 as real * u);
    crate::double::error::lemma_mul(x, 4 as real, u);
    crate::double::error::lemma_mul(4 as real, x, u);
    crate::double::error::lemma_mul(x, u, u);
    assert(-(4 as real * w) <= x * f - x * exact <= 4 as real * w);
    crate::double::error::lemma_mul_order(0 as real, f, x);
    crate::double::error::lemma_mul_order(f, 1 as real, x);
    let p: real = crate::double::error::size_of(c * f);
    assert(p <= 2 as real * x);
    lemma_share(p, 2 as real * x);
    crate::double::error::lemma_mul(u, 2 as real, x);
    crate::double::error::lemma_mul(2 as real, u, x);
}

} // verus!
