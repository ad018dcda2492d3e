//! Which market a configured coin stands for.
use vstd::prelude::*;

use crate::decimal::print_unsigned;
use crate::text::{eq_ignore_case, join};

verus! {

/// A token that the exchange lists.
#[derive(Debug, Clone)]
pub struct SpotToken {
    pub name: String,
    pub sz_decimals: u8,
    pub index: usize,
}

/// A market that the exchange lists, between two tokens given by their index.
#[derive(Debug, Clone)]
pub struct SpotMarket {
    pub name: String,
    pub base: usize,
    pub quote: usize,
}

/// The exchange's list of tokens and markets.
#[derive(Debug, Clone)]
pub struct SpotMeta {
    pub tokens: Vec<SpotToken>,
    pub universe: Vec<SpotMarket>,
}

/// What is fixed of the market that a pair is hedged on.
#[derive(Debug, Clone, PartialEq, Eq)]
pub struct LiquidMarketRules {
    pub asset: String,
    pub base_token: String,
    pub quote_token: String,
    pub size_decimals: u8,
}

/// What [`LiquidMarketRules`] say.
pub ghost struct MarketRulesView {
    pub asset: Seq<char>,
    pub base_token: Seq<char>,
    pub quote_token: Seq<char>,
    pub size_decimals: u8,
}

impl View for LiquidMarketRules {
    type V = MarketRulesView;

    open spec fn view(&self) -> MarketRulesView {
        MarketRulesView {
            asset: self.asset@,
            base_token: self.base_token@,
            quote_token: self.quote_token@,
            size_decimals: self.size_decimals,
        }
    }
}

/// Why no market can be settled on.
#[derive(Debug, Clone)]
pub enum MarketError {
    BaseTokenMismatch { base_token: String, symbol: String },
    QuoteTokenNotUsdc { quote_token: String },
    CoinMismatch { coin: String, asset: String },
    NotUnique { coin: String, matched: usize },
}

/// What a [`MarketError`] says.
pub ghost enum MarketErrorView {
    BaseTokenMismatch { base_token: Seq<char>, symbol: Seq<char> },
    QuoteTokenNotUsdc { quote_token: Seq<char> },
    CoinMismatch { coin: Seq<char>, asset: Seq<char> },
    NotUnique { coin: Seq<char>, matched: nat },
}

impl View for MarketError {
    type V = MarketErrorView;

    open spec fn view(&self) -> MarketErrorView {
        match *self {
            MarketError::BaseTokenMismatch { base_token, symbol } => {
                MarketErrorView::BaseTokenMismatch { base_token: base_token@, symbol: symbol@ }
            },
            MarketError::QuoteTokenNotUsdc { quote_token } => {
                MarketErrorView::QuoteTokenNotUsdc { quote_token: quote_token@ }
            },
            MarketError::CoinMismatch { coin, asset } => MarketErrorView::CoinMismatch {
                coin: coin@,
                asset: asset@,
            },
            MarketError::NotUnique { coin, matched } => MarketErrorView::NotUnique {
                coin: coin@,
                matched: matched as nat,
            },
        }
    }
}

impl MarketErrorView {
    /// What is said of it to people.
    pub open spec fn text(self) -> Seq<char> {
        match self {
            MarketErrorView::BaseTokenMismatch { base_token, symbol } => "HL base token "@
                + base_token + " 与配置 symbol "@ + symbol + " 不一致"@,
            MarketErrorView::QuoteTokenNotUsdc { quote_token } => "HL quote token 必须是 USDC，收到 "@
                + quote_token,
            MarketErrorView::CoinMismatch { coin, asset } => "SPOT_COIN "@ + coin
                + " 不对应 HL 市场 "@ + asset,
            MarketErrorView::NotUnique { coin, matched } => "SPOT_COIN="@ + coin
                + " 必须唯一匹配一个 HL spot 市场，实际匹配 "@ + crate::decimal::printed(matched)
                + " 个"@,
        }
    }
}

impl MarketError {
    /// The message for people.
    pub fn message(&self) -> (text: String)
        ensures
            text@ == self@.text(),
    {
        match self {
            MarketError::BaseTokenMismatch { base_token, symbol } => {
                let front: String = join("HL base token ", base_token.as_str());
                let middle: String = join(
                    join(front.as_str(), " 与配置 symbol ").as_str(),
                    symbol.as_str(),
                );
                join(middle.as_str(), " 不一致")
            },
            MarketError::QuoteTokenNotUsdc { quote_token } => join(
                "HL quote token 必须是 USDC，收到 ",
                quote_token.as_str(),
            ),
            MarketError::CoinMismatch { coin, asset } => {
                let front: String = join("SPOT_COIN ", coin.as_str());
                join(join(front.as_str(), " 不对应 HL 市场 ").as_str(), asset.as_str())
            },
            MarketError::NotUnique { coin, matched } => {
                let front: String = join("SPOT_COIN=", coin.as_str());
                let middle: String = join(
                    front.as_str(),
                    " 必须唯一匹配一个 HL spot 市场，实际匹配 ",
                );
                let counted: String = join(
                    middle.as_str(),
                    print_unsigned(*matched as u64).as_str(),
                );
                join(counted.as_str(), " 个")
            },
        }
    }
}

/// Whether a configured coin names a market: by its canonical name, by its base token, or as
/// `base/quote`, in letters of either case.
pub open spec fn coin_names(
    coin: Seq<char>,
    asset: Seq<char>,
    base_token: Seq<char>,
    quote_token: Seq<char>,
) -> bool {
    ||| crate::text::same_ignoring_case(coin, asset)
    ||| crate::text::same_ignoring_case(coin, base_token)
    ||| crate::text::same_ignoring_case(coin, base_token + "/"@ + quote_token)
}

/// What is wrong with the market, if anything: its base token is the pair's symbol, its quote
/// token is USDC, and the configured coin names it.
pub open spec fn identity_fault(
    symbol: Seq<char>,
    coin: Seq<char>,
    asset: Seq<char>,
    base_token: Seq<char>,
    quote_token: Seq<char>,
) -> Option<MarketErrorView> {
    if !crate::text::same_ignoring_case(base_token, symbol) {
        Some(MarketErrorView::BaseTokenMismatch { base_token, symbol })
    } else if !crate::text::same_ignoring_case(quote_token, "USDC"@) {
        Some(MarketErrorView::QuoteTokenNotUsdc { quote_token })
    } else if !coin_names(coin, asset, base_token, quote_token) {
        Some(MarketErrorView::CoinMismatch { coin, asset })
    } else {
        None
    }
}

fn names_market(coin: &str, asset: &str, base_token: &str, quote_token: &str) -> (named: bool)
    ensures
        named == coin_names(coin@, asset@, base_token@, quote_token@),
{
    let pair_alias: String = join(join(base_token, "/").as_str(), quote_token);
    eq_ignore_case(coin, asset) || eq_ignore_case(coin, base_token) || eq_ignore_case(
        coin,
        pair_alias.as_str(),
    )
}

/// Refuses a market that is not the one the pair was configured for.
pub fn validate_market_identity(
    symbol: &str,
    configured_coin: &str,
    canonical_asset: &str,
    base_token: &str,
    quote_token: &str,
) -> (result: Result<(), MarketError>)
    ensures
        match result {
            Ok(()) => identity_fault(
                symbol@,
                configured_coin@,
                canonical_asset@,
                base_token@,
                quote_token@,
            ) is None,
            Err(error) => identity_fault(
                symbol@,
                configured_coin@,
                canonical_asset@,
                base_token@,
                quote_token@,
            ) == Some(error@),
        },
{
    if !eq_ignore_case(base_token, symbol) {
        return Err(
            MarketError::BaseTokenMismatch {
                base_token: base_token.to_owned(),
                symbol: symbol.to_owned(),
            },
        );
    }
    if !eq_ignore_case(quote_token, "USDC") {
        return Err(MarketError::QuoteTokenNotUsdc { quote_token: quote_token.to_owned() });
    }
    if !names_market(configured_coin, canonical_asset, base_token, quote_token) {
        return Err(
            MarketError::CoinMismatch {
                coin: configured_coin.to_owned(),
                asset: canonical_asset.to_owned(),
            },
        );
    }
    Ok(())
}

/// The position of the first token with the given index.
pub open spec fn token_position(tokens: Seq<SpotToken>, index: usize) -> Option<int>
    decreases tokens.len(),
{
    if tokens.len() == 0 {
        None
    } else {
        match token_position(tokens.drop_last(), index) {
            Some(position) => Some(position),
            None => if tokens.last().index == index {
                Some(tokens.len() - 1)
            } else {
                None
            },
        }
    }
}

/// The rules of a market that the coin names, where both its tokens are listed and it is quoted
/// in USDC.
pub open spec fn candidate(
    tokens: Seq<SpotToken>,
    market: SpotMarket,
    coin: Seq<char>,
) -> Option<MarketRulesView> {
    match (token_position(tokens, market.base), token_position(tokens, market.quote)) {
        (Some(b), Some(q)) => {
            let base: SpotToken = tokens[b];
            let quote: SpotToken = tokens[q];
            if crate::text::same_ignoring_case(quote.name@, "USDC"@) && coin_names(
                coin,
                market.name@,
                base.name@,
                quote.name@,
            ) {
                Some(
                    MarketRulesView {
                        asset: market.name@,
                        base_token: base.name@,
                        quote_token: quote.name@,
                        size_decimals: base.sz_decimals,
                    },
                )
            } else {
                None
            }
        },
        _ => None,
    }
}

/// The rules of all markets that the coin names, in the order of the list.
pub open spec fn candidates(
    tokens: Seq<SpotToken>,
    universe: Seq<SpotMarket>,
    coin: Seq<char>,
) -> Seq<MarketRulesView>
    decreases universe.len(),
{
    if universe.len() == 0 {
        Seq::empty()
    } else {
        let before: Seq<MarketRulesView> = candidates(tokens, universe.drop_last(), coin);
        match candidate(tokens, universe.last(), coin) {
            Some(rules) => before.push(rules),
            None => before,
        }
    }
}

/// The market that a pair is hedged on: the only one that the coin names, provided it is the
/// configured one.
pub open spec fn resolved(
    tokens: Seq<SpotToken>,
    universe: Seq<SpotMarket>,
    coin: Seq<char>,
    symbol: Seq<char>,
) -> Result<MarketRulesView, MarketErrorView> {
    let found: Seq<MarketRulesView> = candidates(tokens, universe, coin);
    if found.len() != 1 {
        Err(MarketErrorView::NotUnique { coin, matched: found.len() })
    } else {
        match identity_fault(
            symbol,
            coin,
            found[0].asset,
            found[0].base_token,
            found[0].quote_token,
        ) {
            Some(fault) => Err(fault),
            None => Ok(found[0]),
        }
    }
}

fn find_token(tokens: &Vec<SpotToken>, index: usize) -> (position: Option<usize>)
    ensures
        match position {
            Some(p) => token_position(tokens@, index) == Some(p as int) && p < tokens@.len(),
            None => token_position(tokens@, index) is None,
        },
{
    let mut i: usize = 0;
    while i < tokens.len()
        invariant
            i <= tokens@.len(),
            token_position(tokens@.take(i as int), index) is None,
        decreases tokens@.len() - i,
    {
        proof {
            assert(tokens@.take(i + 1).drop_last() == tokens@.take(i as int));
            assert(tokens@.take(i + 1).last() == tokens@[i as int]);
        }
        if tokens[i].index == index {
            proof {
                lemma_first_token(tokens@, index, i + 1);
            }
            return Some(i);
        }
        i = i + 1;
    }
    assert(tokens@.take(i as int) == tokens@);
    None
}

proof fn lemma_first_token(tokens: Seq<SpotToken>, index: usize, n: int)
    requires
        0 <= n <= tokens.len(),
        token_position(tokens.take(n), index) is Some,
    ensures
        token_position(tokens, index) == token_position(tokens.take(n), index),
    decreases tokens.len(),
{
    if n < tokens.len() {
        assert(tokens.drop_last().take(n) == tokens.take(n));
        lemma_first_token(tokens.drop_last(), index, n);
    } else {
        assert(tokens.take(n) == tokens);
    }
}

fn market_rules(tokens: &Vec<SpotToken>, market: &SpotMarket, coin: &str) -> (rules: Option<
    LiquidMarketRules,
>)
    ensures
        match rules {
            Some(found) => candidate(tokens@, *market, coin@) == Some(found@),
            None => candidate(tokens@, *market, coin@) is None,
        },
{
    let b: usize = match find_token(tokens, market.base) {
        Some(position) => position,
        None => {
            return None;
        },
    };
    let q: usize = match find_token(tokens, market.quote) {
        Some(position) => position,
        None => {
            return None;
        },
    };
    let base: &SpotToken = &tokens[b];
    let quote: &SpotToken = &tokens[q];
    if eq_ignore_case(quote.name.as_str(), "USDC") && names_market(
        coin,
        market.name.as_str(),
        base.name.as_str(),
        quote.name.as_str(),
    ) {
        Some(
            LiquidMarketRules {
                asset: market.name.clone(),
                base_token: base.name.clone(),
                quote_token: quote.name.clone(),
                size_decimals: base.sz_decimals,
            },
        )
    } else {
        None
    }
}

/// Finds the one market that the coin names and checks that it is the configured one.
pub fn resolve_market(meta: &SpotMeta, coin: &str, symbol: &str) -> (result: Result<
    LiquidMarketRules,
    MarketError,
>)
    ensures
        match result {
            Ok(rules) => resolved(meta.tokens@, meta.universe@, coin@, symbol@) == Ok::<
                MarketRulesView,
                MarketErrorView,
            >(rules@),
            Err(error) => resolved(meta.tokens@, meta.universe@, coin@, symbol@) == Err::<
                MarketRulesView,
                MarketErrorView,
            >(error@),
        },
{
    let mut found: Vec<LiquidMarketRules> = Vec::new();
    let mut i: usize = 0;
    while i < meta.universe.len()
        invariant
            i <= meta.universe@.len(),
            found@.len() <= i,
            candidates(meta.tokens@, meta.universe@.take(i as int), coin@) == Seq::new(
                found@.len(),
                |j: int| found@[j]@,
            ),
        decreases meta.universe@.len() - i,
    {
        let ghost before: Seq<LiquidMarketRules> = found@;
        proof {
            assert(meta.universe@.take(i + 1).drop_last() == meta.universe@.take(i as int));
            assert(meta.universe@.take(i + 1).last() == meta.universe@[i as int]);
        }
        match market_rules(&meta.tokens, &meta.universe[i], coin) {
            Some(rules) => {
                found.push(rules);
                proof {
                    assert(Seq::new(found@.len(), |j: int| found@[j]@) =~= Seq::new(
                        before.len(),
                        |j: int| before[j]@,
                    ).push(rules@));
                }
            },
            None => {},
        }
        i = i + 1;
    }
    assert(meta.universe@.take(i as int) == meta.universe@);
    if found.len() != 1 {
        return Err(MarketError::NotUnique { coin: coin.to_owned(), matched: found.len() });
    }
    let rules: LiquidMarketRules = found.remove(0);
    match validate_market_identity(
        symbol,
        coin,
        rules.asset.as_str(),
        rules.base_token.as_str(),
        rules.quote_token.as_str(),
    ) {
        Ok(()) => Ok(rules),
        Err(error) => Err(error),
    }
}

/// A market that was settled on is quoted in USDC, its base token is the pair's symbol, the coin
/// names it, and no other listed market answers to the coin.
pub proof fn law_resolved_market_is_the_configured_one(
    tokens: Seq<SpotToken>,
    universe: Seq<SpotMarket>,
    coin: Seq<char>,
    symbol: Seq<char>,
    rules: MarketRulesView,
)
    requires
        resolved(tokens, universe, coin, symbol) == Ok::<MarketRulesView, MarketErrorView>(rules),
    ensures
        crate::text::same_ignoring_case(rules.base_token, symbol),
        crate::text::same_ignoring_case(rules.quote_token, "USDC"@),
        coin_names(coin, rules.asset, rules.base_token, rules.quote_token),
        candidates(tokens, universe, coin) == seq![rules],
{
    assert(candidates(tokens, universe, coin) =~= seq![rules]);
}

/// The rules that were settled on are those of a listed market: its name is the asset, and the
/// first token listed under the index of its base gives the base token and the decimals of sizes.
pub proof fn law_rules_are_those_of_a_listed_market(
    tokens: Seq<SpotToken>,
    universe: Seq<SpotMarket>,
    coin: Seq<char>,
    symbol: Seq<char>,
    rules: MarketRulesView,
)
    requires
        resolved(tokens, universe, coin, symbol) == Ok::<MarketRulesView, MarketErrorView>(rules),
    ensures
        exists|m: int, b: int, q: int|
            #![trigger universe[m], tokens[b], tokens[q]]
            {
                &&& 0 <= m < universe.len()
                &&& first_with_index(tokens, universe[m].base, b)
                &&& first_with_index(tokens, universe[m].quote, q)
                &&& rules.asset == universe[m].name@
                &&& rules.base_token == tokens[b].name@
                &&& rules.quote_token == tokens[q].name@
                &&& rules.size_decimals == tokens[b].sz_decimals
            },
{
    let found: Seq<MarketRulesView> = candidates(tokens, universe, coin);
    let m: int = lemma_candidate_is_listed(tokens, universe, coin, 0);
    let b: int = token_position(tokens, universe[m].base)->Some_0;
    let q: int = token_position(tokens, universe[m].quote)->Some_0;
    lemma_position(tokens, universe[m].base);
    lemma_position(tokens, universe[m].quote);
    assert(0 <= m < universe.len() && first_with_index(tokens, universe[m].base, b)
        && first_with_index(tokens, universe[m].quote, q) && rules.asset == universe[m].name@
        && rules.base_token == tokens[b].name@ && rules.quote_token == tokens[q].name@
        && rules.size_decimals == tokens[b].sz_decimals);
}

/// Whether a token is the first one listed under an index.
pub open spec fn first_with_index(tokens: Seq<SpotToken>, index: usize, position: int) -> bool {
    &&& 0 <= position < tokens.len()
    &&& tokens[position].index == index
    &&& forall|j: int| 0 <= j < position ==> (#[trigger] tokens[j]).index != index
}

proof fn lemma_position(tokens: Seq<SpotToken>, index: usize)
    ensures
        match token_position(tokens, index) {
            Some(position) => first_with_index(tokens, index, position),
            None => forall|j: int| 0 <= j < tokens.len() ==> (#[trigger] tokens[j]).index != index,
        },
    decreases tokens.len(),
{
    if tokens.len() > 0 {
        let front: Seq<SpotToken> = tokens.drop_last();
        lemma_position(front, index);
        match token_position(front, index) {
            Some(position) => {
                assert(tokens[position] == front[position]);
                assert forall|j: int| 0 <= j < position implies (#[trigger] tokens[j]).index
                    != index by {
                    assert(front[j] == tokens[j]);
                }
            },
            None => {
                assert forall|j: int| 0 <= j < tokens.len() - 1 implies (#[trigger] tokens[j]).index
                    != index by {
                    assert(front[j] == tokens[j]);
                }
            },
        }
    }
}

proof fn lemma_candidate_is_listed(
    tokens: Seq<SpotToken>,
    universe: Seq<SpotMarket>,
    coin: Seq<char>,
    i: int,
) -> (m: int)
    requires
        0 <= i < candidates(tokens, universe, coin).len(),
    ensures
        0 <= m < universe.len(),
        candidate(tokens, universe[m], coin) == Some(candidates(tokens, universe, coin)[i]),
    decreases universe.len(),
{
    let front: Seq<SpotMarket> = universe.drop_last();
    let before: Seq<MarketRulesView> = candidates(tokens, front, coin);
    if i < before.len() {
        let m: int = lemma_candidate_is_listed(tokens, front, coin, i);
        assert(front[m] == universe[m]);
        m
    } else {
        universe.len() - 1
    }
}

} // verus!
