//! The best quotes of a block.
use vstd::prelude::*;

use crate::config::PairConfig;
use crate::double::Double;
use crate::evm::is_valid_quote;
use crate::types::market::{DexName, EvmPrice};

verus! {

/// The connection is given up when no block came for this long, in seconds.
pub const BLOCK_IDLE_SECS: u64 = 30;

/// The quotes of a block are given up when they take longer than this, in seconds.
pub const QUOTE_TIMEOUT_SECS: u64 = 5;

/// A quote, `None` where it failed, and the exchange that gave it.
#[derive(Debug, Clone, Copy, PartialEq, Eq, Structural)]
pub struct DexQuote {
    pub value: Option<Double>,
    pub dex: DexName,
}

/// What one exchange quotes for a hundred of token0: how much token1 they buy, and how much token1
/// must be sold for them.
#[derive(Debug, Clone, Copy, PartialEq, Eq, Structural)]
pub struct DexQuotes {
    pub dex: DexName,
    pub buy: Option<Double>,
    pub sell: Option<Double>,
}

/// A quote that was chosen.
#[derive(Debug, Clone, Copy, PartialEq, Eq, Structural)]
pub struct BestQuote {
    pub value: Double,
    pub dex: DexName,
}

/// Whether a quote is there and can be used.
pub open spec fn usable(quote: DexQuote) -> bool {
    match quote.value {
        Some(value) => value.positive(),
        None => false,
    }
}

/// The best usable quote: the largest, of equal ones the last; or the smallest, of equal ones the
/// first.
pub open spec fn best(quotes: Seq<DexQuote>, prefer_max: bool) -> Option<BestQuote>
    decreases quotes.len(),
{
    if quotes.len() == 0 {
        None
    } else {
        let before: Option<BestQuote> = best(quotes.drop_last(), prefer_max);
        let last: DexQuote = quotes.last();
        if !usable(last) {
            before
        } else {
            let value: Double = last.value->Some_0;
            match before {
                None => Some(BestQuote { value, dex: last.dex }),
                Some(chosen) => if (prefer_max && chosen.value.at_most(value)) || (!prefer_max
                    && value.less(chosen.value)) {
                    Some(BestQuote { value, dex: last.dex })
                } else {
                    Some(chosen)
                },
            }
        }
    }
}

/// Chooses the best usable quote.
pub fn best_of(quotes: &Vec<DexQuote>, prefer_max: bool) -> (result: Option<BestQuote>)
    ensures
        result == best(quotes@, prefer_max),
{
    let mut chosen: Option<BestQuote> = None;
    let mut i: usize = 0;
    while i < quotes.len()
        invariant
            i <= quotes@.len(),
            chosen == best(quotes@.take(i as int), prefer_max),
        decreases quotes@.len() - i,
    {
        let quote: DexQuote = quotes[i];
        proof {
            assert(quotes@.take(i + 1).drop_last() == quotes@.take(i as int));
            assert(quotes@.take(i + 1).last() == quote);
        }
        match quote.value {
            Some(value) => {
                if is_valid_quote(value) {
                    let better: bool = match chosen {
                        None => true,
                        Some(current) => (prefer_max && current.value.is_at_most(value)) || (
                        !prefer_max && value.is_less(current.value)),
                    };
                    if better {
                        chosen = Some(BestQuote { value, dex: quote.dex });
                    }
                }
            },
            None => {},
        }
        i = i + 1;
    }
    assert(quotes@.take(i as int) == quotes@);
    chosen
}

/// Which direction no exchange quoted.
#[derive(Debug, Clone, Copy, PartialEq, Eq, Structural)]
pub enum QuoteError {
    NoBuyQuote,
    NoSellQuote,
}

impl QuoteError {
    /// What is said of it to people.
    pub open spec fn text(self) -> Seq<char> {
        match self {
            QuoteError::NoBuyQuote => "所有 DEX buy 报价均失败"@,
            QuoteError::NoSellQuote => "所有 DEX sell 报价均失败"@,
        }
    }

    /// The message for people.
    pub fn message(self) -> (text: &'static str)
        ensures
            text@ == self.text(),
    {
        match self {
            QuoteError::NoBuyQuote => "所有 DEX buy 报价均失败",
            QuoteError::NoSellQuote => "所有 DEX sell 报价均失败",
        }
    }
}

/// The quotes for buying token1.
pub open spec fn buy_quotes(quotes: Seq<DexQuotes>) -> Seq<DexQuote> {
    Seq::new(quotes.len(), |i: int| DexQuote { value: quotes[i].buy, dex: quotes[i].dex })
}

/// The quotes for selling token1.
pub open spec fn sell_quotes(quotes: Seq<DexQuotes>) -> Seq<DexQuote> {
    Seq::new(quotes.len(), |i: int| DexQuote { value: quotes[i].sell, dex: quotes[i].dex })
}

/// The best prices among the exchanges: buying goes where a hundred of token0 buy the most token1,
/// selling where the least token1 brings them.
pub fn best_prices(quotes: &Vec<DexQuotes>, symbol: &str, block_number: u64, received_at: u64) -> (result:
    Result<EvmPrice, QuoteError>)
    ensures
        match (best(buy_quotes(quotes@), true), best(sell_quotes(quotes@), false)) {
            (None, _) => result == Err::<EvmPrice, QuoteError>(QuoteError::NoBuyQuote),
            (Some(_), None) => result == Err::<EvmPrice, QuoteError>(QuoteError::NoSellQuote),
            (Some(buy), Some(sell)) => result matches Ok(price) && {
                &&& price.buy_price == Double::hundred().quotient(buy.value)
                &&& price.sell_price == Double::hundred().quotient(sell.value)
                &&& price.buy_dex == buy.dex
                &&& price.sell_dex == sell.dex
                &&& price.block_number == block_number
                &&& price.received_at == received_at
                &&& price.pair_id@ == symbol@
            },
        },
        result matches Ok(price) ==> priced(quotes@, symbol@, block_number, received_at, price),
{
    let mut buys: Vec<DexQuote> = Vec::new();
    let mut sells: Vec<DexQuote> = Vec::new();
    let mut i: usize = 0;
    while i < quotes.len()
        invariant
            i <= quotes@.len(),
            buys@ == buy_quotes(quotes@.take(i as int)),
            sells@ == sell_quotes(quotes@.take(i as int)),
        decreases quotes@.len() - i,
    {
        let quote: DexQuotes = quotes[i];
        buys.push(DexQuote { value: quote.buy, dex: quote.dex });
        sells.push(DexQuote { value: quote.sell, dex: quote.dex });
        i = i + 1;
    }
    assert(quotes@.take(i as int) == quotes@);
    let buy: BestQuote = match best_of(&buys, true) {
        Some(quote) => quote,
        None => {
            return Err(QuoteError::NoBuyQuote);
        },
    };
    let sell: BestQuote = match best_of(&sells, false) {
        Some(quote) => quote,
        None => {
            return Err(QuoteError::NoSellQuote);
        },
    };
    Ok(
        EvmPrice {
            buy_price: Double::hundred().over(buy.value),
            sell_price: Double::hundred().over(sell.value),
            block_number,
            received_at,
            sell_dex: sell.dex,
            buy_dex: buy.dex,
            pair_id: symbol.to_owned(),
        },
    )
}

/// Whether an exchange is asked for a pair: PRJX always, the others where the pair says so, and
/// Kitten only where it is set up.
pub open spec fn dex_enabled(pair: PairConfig, kitten_available: bool, dex: DexName) -> bool {
    match dex {
        DexName::Prjx => true,
        DexName::HyperSwap => pair.use_hyperswap,
        DexName::Kitten => pair.use_kitten && kitten_available,
    }
}

/// Whether an exchange is asked for a pair.
pub fn is_dex_enabled(pair: &PairConfig, kitten_available: bool, dex: DexName) -> (enabled: bool)
    ensures
        enabled == dex_enabled(*pair, kitten_available, dex),
{
    match dex {
        DexName::Prjx => true,
        DexName::HyperSwap => pair.use_hyperswap,
        DexName::Kitten => pair.use_kitten && kitten_available,
    }
}

/// The chosen quote is one of the usable ones, and none of them is better.
pub proof fn law_best_quote_is_the_best(quotes: Seq<DexQuote>, prefer_max: bool, i: int)
    requires
        0 <= i < quotes.len(),
        usable(quotes[i]),
    ensures
        best(quotes, prefer_max) is Some,
        best(quotes, prefer_max)->Some_0.value.positive(),
        prefer_max ==> quotes[i].value->Some_0.at_most(best(quotes, prefer_max)->Some_0.value),
        !prefer_max ==> best(quotes, prefer_max)->Some_0.value.at_most(quotes[i].value->Some_0),
    decreases quotes.len(),
{
    let before: Seq<DexQuote> = quotes.drop_last();
    lemma_best_is_usable(before, prefer_max);
    if i < before.len() {
        assert(before[i] == quotes[i]);
        law_best_quote_is_the_best(before, prefer_max, i);
    }
}

/// Where a quote is chosen, it is one of the usable ones.
pub proof fn lemma_best_is_usable(quotes: Seq<DexQuote>, prefer_max: bool)
    ensures
        match best(quotes, prefer_max) {
            Some(chosen) => {
                &&& chosen.value.positive()
                &&& quotes.contains(DexQuote { value: Some(chosen.value), dex: chosen.dex })
            },
            None => forall|i: int| 0 <= i < quotes.len() ==> !usable(#[trigger] quotes[i]),
        },
    decreases quotes.len(),
{
    if quotes.len() > 0 {
        let before: Seq<DexQuote> = quotes.drop_last();
        lemma_best_is_usable(before, prefer_max);
        match best(quotes, prefer_max) {
            Some(chosen) => {
                let quote: DexQuote = DexQuote { value: Some(chosen.value), dex: chosen.dex };
                if before.contains(quote) {
                    let k: int = choose|k: int| 0 <= k < before.len() && before[k] == quote;
                    assert(quotes[k] == quote);
                } else {
                    assert(quotes[quotes.len() - 1] == quote);
                }
            },
            None => {
                assert forall|i: int| 0 <= i < quotes.len() implies !usable(
                    #[trigger] quotes[i],
                ) by {
                    if i < before.len() {
                        assert(before[i] == quotes[i]);
                    }
                }
            },
        }
    }
}

/// The prices that the quotes of the exchanges give, if any.
pub open spec fn priced(
    quotes: Seq<DexQuotes>,
    symbol: Seq<char>,
    block_number: u64,
    received_at: u64,
    price: EvmPrice,
) -> bool {
    match (best(buy_quotes(quotes), true), best(sell_quotes(quotes), false)) {
        (Some(buy), Some(sell)) => {
            &&& price.buy_price == Double::hundred().quotient(buy.value)
            &&& price.sell_price == Double::hundred().quotient(sell.value)
            &&& price.buy_dex == buy.dex
            &&& price.sell_dex == sell.dex
            &&& price.block_number == block_number
            &&& price.received_at == received_at
            &&& price.pair_id@ == symbol
        },
        _ => false,
    }
}

/// Each price is a hundred over the quote of the exchange that it names: for buying the one that
/// gives the most token1 for them, for selling the one that takes the least.
pub proof fn law_prices_come_from_the_best_quotes(
    quotes: Seq<DexQuotes>,
    symbol: Seq<char>,
    block_number: u64,
    received_at: u64,
    price: EvmPrice,
    j: int,
)
    requires
        priced(quotes, symbol, block_number, received_at, price),
        0 <= j < quotes.len(),
    ensures
        price.pair_id@ == symbol,
        price.block_number == block_number,
        price.received_at == received_at,
        exists|i: int|
            #![trigger quotes[i]]
            0 <= i < quotes.len() && quotes[i].dex == price.buy_dex && quotes[i].buy is Some
                && price.buy_price == Double::hundred().quotient(quotes[i].buy->Some_0) && (
            quotes[j].buy is Some && quotes[j].buy->Some_0.positive()
                ==> quotes[j].buy->Some_0.at_most(quotes[i].buy->Some_0)),
        exists|i: int|
            #![trigger quotes[i]]
            0 <= i < quotes.len() && quotes[i].dex == price.sell_dex && quotes[i].sell is Some
                && price.sell_price == Double::hundred().quotient(quotes[i].sell->Some_0) && (
            quotes[j].sell is Some && quotes[j].sell->Some_0.positive()
                ==> quotes[i].sell->Some_0.at_most(quotes[j].sell->Some_0)),
{
    let buys: Seq<DexQuote> = buy_quotes(quotes);
    let sells: Seq<DexQuote> = sell_quotes(quotes);
    lemma_best_is_usable(buys, true);
    lemma_best_is_usable(sells, false);
    let buy: BestQuote = best(buys, true)->Some_0;
    let sell: BestQuote = best(sells, false)->Some_0;
    let b: DexQuote = DexQuote { value: Some(buy.value), dex: buy.dex };
    let s: DexQuote = DexQuote { value: Some(sell.value), dex: sell.dex };
    let i: int = choose|i: int| 0 <= i < buys.len() && buys[i] == b;
    assert(buys[i] == b);
    assert(quotes[i].buy == Some(buy.value) && quotes[i].dex == buy.dex);
    let k: int = choose|k: int| 0 <= k < sells.len() && sells[k] == s;
    assert(sells[k] == s);
    assert(quotes[k].sell == Some(sell.value) && quotes[k].dex == sell.dex);
    assert(buys[j].value == quotes[j].buy);
    assert(sells[j].value == quotes[j].sell);
    if usable(buys[j]) {
        law_best_quote_is_the_best(buys, true, j);
    }
    if usable(sells[j]) {
        law_best_quote_is_the_best(sells, false, j);
    }
}

/// PRJX is always asked; the others only where the pair uses them, and Kitten only where it is set
/// up. One exchange's switch does not touch another.
pub proof fn law_exchanges_are_asked_by_their_own_switch(pair: PairConfig, available: bool)
    ensures
        dex_enabled(pair, available, DexName::Prjx),
        dex_enabled(pair, available, DexName::HyperSwap) <==> pair.use_hyperswap,
        dex_enabled(pair, available, DexName::Kitten) <==> pair.use_kitten && available,
{
}

} // verus!
