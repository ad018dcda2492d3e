//! Each setting is read from its own key, and from no other.
use vstd::prelude::*;

use crate::config::ConfigSource;
use crate::double::Double;

verus! {

/// Whether a text setting is what the source has under the key, or the default where it has
/// nothing there.
pub open spec fn text_at<S: ConfigSource>(
    source: &S,
    key: Seq<char>,
    default: Option<Seq<char>>,
    setting: Seq<char>,
) -> bool {
    match source.lookup(key) {
        Some(text) => setting == text,
        None => default == Some(setting),
    }
}

/// Whether a number is what the text under the key stands for, or the default where there is none.
pub open spec fn number_at<S: ConfigSource>(
    source: &S,
    key: Seq<char>,
    default: Option<Double>,
    setting: Double,
) -> bool {
    match source.lookup(key) {
        Some(text) => crate::decimal::read_double(text) == Some(setting),
        None => default == Some(setting),
    }
}

/// Whether a count is what the text under the key stands for, or the default where there is none.
pub open spec fn count_at<S: ConfigSource>(
    source: &S,
    key: Seq<char>,
    default: Option<nat>,
    setting: nat,
) -> bool {
    match source.lookup(key) {
        Some(text) => crate::decimal::read_unsigned(text) == Some(setting),
        None => default == Some(setting),
    }
}

/// Whether a switch is on where the text under the key says `true`, off where it says `false`, and
/// as by default where there is none.
pub open spec fn flag_at<S: ConfigSource>(
    source: &S,
    key: Seq<char>,
    default: bool,
    setting: bool,
) -> bool {
    match source.lookup(key) {
        Some(text) => crate::text::same_ignoring_case(
            crate::text::trimmed(text),
            if setting {
                "true"@
            } else {
                "false"@
            },
        ),
        None => setting == default,
    }
}

/// Every setting of a pair that was read stands under the key of its own name, which begins with
/// the prefix in upper case; what is not given has its default: the prefix as the symbol, the
/// rates of the system, buying on chain off, both optional exchanges on.
pub proof fn law_pair_settings_stand_under_their_keys<S: ConfigSource>(
    source: &S,
    prefix: Seq<char>,
    min_out_bps: Double,
    limit_slippage: Double,
    pair: crate::config::pair::PairView,
)
    requires
        crate::config::pair::pair_under(source, prefix, min_out_bps, limit_slippage) == Ok::<
            crate::config::pair::PairView,
            crate::config::faults::ConfigFault,
        >(pair),
    ensures
        ({
            let p: Seq<char> = crate::text::upper_case(prefix);
            &&& text_at(source, p + "_TOKEN0"@, None, pair.token0)
            &&& count_at(source, p + "_DECIMALS0"@, None, pair.decimals0)
            &&& text_at(source, p + "_TOKEN1"@, None, pair.token1)
            &&& count_at(source, p + "_DECIMALS1"@, None, pair.decimals1)
            &&& text_at(source, p + "_SYMBOL"@, Some(prefix), pair.symbol)
            &&& text_at(source, p + "_SPOT_COIN"@, None, pair.spot_coin)
            &&& number_at(source, p + "_ORDER_AMOUNT"@, None, pair.order_size_token1)
            &&& number_at(source, p + "_ASK_DIFF_PERCENT"@, None, pair.ask_diff_percent)
            &&& number_at(source, p + "_BID_DIFF_PERCENT"@, None, pair.bid_diff_percent)
            &&& number_at(source, p + "_MIN_OUT_BPS"@, Some(min_out_bps), pair.min_out_bps)
            &&& number_at(source, p + "_LIMIT_SLIPPAGE"@, Some(limit_slippage), pair.limit_slippage)
            &&& count_at(source, p + "_FEE_TIER"@, None, pair.fee_tier)
            &&& flag_at(source, p + "_ENABLE_SELL_ARB"@, false, pair.enable_sell_arb)
            &&& flag_at(source, p + "_USE_HYPERSWAP"@, true, pair.use_hyperswap)
            &&& flag_at(source, p + "_USE_KITTEN"@, true, pair.use_kitten)
        }),
{
}

/// A setting of a pair depends on its own key alone: where two sources have the same there, it is
/// the same, whatever else they have.
pub proof fn law_pair_settings_depend_on_their_keys_alone<S: ConfigSource>(
    source: &S,
    other: &S,
    prefix: Seq<char>,
    min_out_bps: Double,
    limit_slippage: Double,
    a: crate::config::pair::PairView,
    b: crate::config::pair::PairView,
)
    requires
        crate::config::pair::pair_under(source, prefix, min_out_bps, limit_slippage) == Ok::<
            crate::config::pair::PairView,
            crate::config::faults::ConfigFault,
        >(a),
        crate::config::pair::pair_under(other, prefix, min_out_bps, limit_slippage) == Ok::<
            crate::config::pair::PairView,
            crate::config::faults::ConfigFault,
        >(b),
    ensures
        ({
            let p: Seq<char> = crate::text::upper_case(prefix);
            &&& source.lookup(p + "_TOKEN0"@) == other.lookup(p + "_TOKEN0"@) ==> a.token0 == b.token0
            &&& source.lookup(p + "_DECIMALS0"@) == other.lookup(p + "_DECIMALS0"@) ==> a.decimals0 == b.decimals0
            &&& source.lookup(p + "_TOKEN1"@) == other.lookup(p + "_TOKEN1"@) ==> a.token1 == b.token1
            &&& source.lookup(p + "_DECIMALS1"@) == other.lookup(p + "_DECIMALS1"@) ==> a.decimals1 == b.decimals1
            &&& source.lookup(p + "_SYMBOL"@) == other.lookup(p + "_SYMBOL"@) ==> a.symbol == b.symbol
            &&& source.lookup(p + "_SPOT_COIN"@) == other.lookup(p + "_SPOT_COIN"@) ==> a.spot_coin == b.spot_coin
            &&& source.lookup(p + "_ORDER_AMOUNT"@) == other.lookup(p + "_ORDER_AMOUNT"@) ==> a.order_size_token1 == b.order_size_token1
            &&& source.lookup(p + "_ASK_DIFF_PERCENT"@) == other.lookup(p + "_ASK_DIFF_PERCENT"@) ==> a.ask_diff_percent == b.ask_diff_percent
            &&& source.lookup(p + "_BID_DIFF_PERCENT"@) == other.lookup(p + "_BID_DIFF_PERCENT"@) ==> a.bid_diff_percent == b.bid_diff_percent
            &&& source.lookup(p + "_MIN_OUT_BPS"@) == other.lookup(p + "_MIN_OUT_BPS"@) ==> a.min_out_bps == b.min_out_bps
            &&& source.lookup(p + "_LIMIT_SLIPPAGE"@) == other.lookup(p + "_LIMIT_SLIPPAGE"@) ==> a.limit_slippage == b.limit_slippage
            &&& source.lookup(p + "_FEE_TIER"@) == other.lookup(p + "_FEE_TIER"@) ==> a.fee_tier == b.fee_tier
            &&& source.lookup(p + "_ENABLE_SELL_ARB"@) == other.lookup(p + "_ENABLE_SELL_ARB"@) ==> a.enable_sell_arb == b.enable_sell_arb
            &&& source.lookup(p + "_USE_HYPERSWAP"@) == other.lookup(p + "_USE_HYPERSWAP"@) ==> a.use_hyperswap == b.use_hyperswap
            &&& source.lookup(p + "_USE_KITTEN"@) == other.lookup(p + "_USE_KITTEN"@) ==> a.use_kitten == b.use_kitten
        }),
{
}

/// Every setting of the system that was read stands under the key of its own name; what is not
/// given has its default.
pub proof fn law_settings_stand_under_their_keys<S: ConfigSource>(
    source: &S,
    config: crate::config::global::ConfigView,
)
    requires
        crate::config::global::configuration(source) == Ok::<
            crate::config::global::ConfigView,
            crate::config::faults::ConfigFault,
        >(config),
    ensures
        text_at(source, "PRIVATE_KEY"@, None, config.private_key),
        text_at(source, "HTTPS_RPC"@, None, config.https_rpc),
        text_at(source, "WSS_RPC"@, None, config.wss_rpc),
        text_at(source, "WSS_API"@, None, config.wss_api),
        number_at(source, "MIN_OUT_BPS"@, Some(Double { bits: crate::config::global::DEFAULT_MIN_OUT_BPS }), config.min_out_bps),
        number_at(source, "LIMIT_SLIPPAGE"@, Some(Double { bits: crate::config::global::DEFAULT_LIMIT_SLIPPAGE }), config.limit_slippage),
        number_at(source, "LIQUID_FEE_BPS"@, Some(Double { bits: crate::config::global::DEFAULT_LIQUID_FEE_BPS }), config.liquid_fee_bps),
        number_at(source, "GAS_COST_USDC"@, Some(Double { bits: crate::config::global::DEFAULT_GAS_COST_USDC }), config.gas_cost_usdc),
        number_at(source, "PROFIT_BUFFER_BPS"@, Some(Double { bits: crate::config::global::DEFAULT_PROFIT_BUFFER_BPS }), config.profit_buffer_bps),
        text_at(source, "HYPERSWAP_ROUTER01"@, None, config.hyperswap_router01),
        text_at(source, "HYPERSWAP_QUOTEV2"@, None, config.hyperswap_quotev2),
        text_at(source, "PRJX_QUOTEV2"@, None, config.prjx_quotev2),
        text_at(source, "PRJX_ROUTERV2"@, None, config.prjx_routerv2),
        text_at(source, "KITTEN_QUOTER"@, Some(""@), config.kitten_quoter),
        text_at(source, "KITTEN_ROUTER"@, Some(""@), config.kitten_router),
        flag_at(source, "DRY_RUN"@, true, config.dry_run),
        count_at(source, "METRICS_PORT"@, Some(9090), config.metrics_port),
        text_at(source, "METRICS_HOST"@, Some("127.0.0.1"@), config.metrics_host),
        text_at(source, "LOG_DIR"@, Some("logs"@), config.log_dir),
        text_at(source, "DB_PATH"@, Some("data.db"@), config.db_path),
        count_at(source, "DB_MAX_PRICE_ROWS"@, Some(1_000_000), config.db_max_price_rows),
{
}

/// The pairs of an accepted configuration are those that the list names, one for each name and in
/// its order, with the rates of the system as their defaults.
pub proof fn law_pairs_are_those_listed<S: ConfigSource>(
    source: &S,
    config: crate::config::global::ConfigView,
)
    requires
        crate::config::global::configuration(source) == Ok::<
            crate::config::global::ConfigView,
            crate::config::faults::ConfigFault,
        >(config),
    ensures
        source.lookup("PAIRS"@) is Some,
        ({
            let names: Seq<Seq<char>> = crate::config::global::prefixes_in(
                crate::text::split_parts(source.lookup("PAIRS"@)->Some_0, ','),
            );
            &&& config.pairs.len() == names.len()
            &&& forall|i: int|
                0 <= i < names.len() ==> crate::config::pair::pair_under(
                    source,
                    #[trigger] names[i],
                    config.min_out_bps,
                    config.limit_slippage,
                ) == Ok::<crate::config::pair::PairView, crate::config::faults::ConfigFault>(
                    config.pairs[i],
                )
        }),
{
    let list: Seq<char> = crate::config::readers::required_text(source, "PAIRS"@)->Ok_0;
    let prefixes: Seq<Seq<char>> = crate::config::global::prefixes_in(
        crate::text::split_parts(list, ','),
    );
    crate::config::laws::lemma_pairs(source, prefixes, config.min_out_bps, config.limit_slippage);
}

/// A name is listed exactly where a part of the list is that name, in letters of either case and
/// with white space around it; empty parts name nothing.
pub proof fn law_listed_names_are_the_parts(parts: Seq<Seq<char>>, name: Seq<char>)
    ensures
        crate::config::global::prefixes_in(parts).contains(name) <==> name.len() > 0 && exists|
            i: int,
        |
            0 <= i < parts.len() && crate::text::upper_case(
                crate::text::trimmed(#[trigger] parts[i]),
            ) == name,
    decreases parts.len(),
{
    let names: Seq<Seq<char>> = crate::config::global::prefixes_in(parts);
    if parts.len() > 0 {
        let front: Seq<Seq<char>> = parts.drop_last();
        law_listed_names_are_the_parts(front, name);
        let before: Seq<Seq<char>> = crate::config::global::prefixes_in(front);
        let last: Seq<char> = crate::text::upper_case(crate::text::trimmed(parts.last()));
        if names.contains(name) {
            let k: int = choose|k: int| 0 <= k < names.len() && names[k] == name;
            if k < before.len() {
                assert(before[k] == name);
                let i: int = choose|i: int|
                    0 <= i < front.len() && crate::text::upper_case(
                        crate::text::trimmed(#[trigger] front[i]),
                    ) == name;
                assert(parts[i] == front[i]);
            } else {
                assert(parts[parts.len() - 1] == parts.last());
            }
        }
        if name.len() > 0 && exists|i: int|
            0 <= i < parts.len() && crate::text::upper_case(
                crate::text::trimmed(#[trigger] parts[i]),
            ) == name {
            let i: int = choose|i: int|
                0 <= i < parts.len() && crate::text::upper_case(
                    crate::text::trimmed(#[trigger] parts[i]),
                ) == name;
            if i < front.len() {
                assert(front[i] == parts[i]);
                let k: int = choose|k: int| 0 <= k < before.len() && before[k] == name;
                assert(names[k] == name);
            } else {
                assert(names[names.len() - 1] == name);
            }
        }
    }
}

/// A rate is in order exactly where it is a number from 0, or from -10000 where it may be
/// negative, to below 10000.
pub proof fn law_rates_lie_in_their_range(key: Seq<char>, rate: Double, signed: bool)
    ensures
        crate::config::readers::rate_fault(key, rate, signed) is None <==> {
            &&& rate.finite()
            &&& rate.value() < 10000 as real
            &&& rate.value() >= if signed {
                -10000 as real
            } else {
                0 as real
            }
        },
{
    crate::actors::pricing::values::lemma_constants();
    crate::double::error::lemma_order(rate, Double::basis_points());
    crate::double::error::lemma_order(Double::nought(), rate);
    let least: Double = Double { bits: crate::config::readers::MINUS_BASIS_POINTS_BITS };
    crate::double::error::lemma_opposite_value(Double::basis_points());
    assert(Double::basis_points().opposite() == least);
    crate::double::error::lemma_order(least, rate);
}

/// A pair is accepted exactly where its tokens are two different addresses other than zero, the
/// first that of USDC with six decimals, the second with at most 38, its names are not blank, its
/// size is positive and below 10^15, and its rates and fee tier lie in their ranges.
pub proof fn law_pairs_are_accepted_by_these_rules(
    p: Seq<char>,
    pair: crate::config::pair::PairView,
)
    ensures
        crate::config::pair::pair_fault(p, pair) is None <==> {
            let token0: Option<Seq<u8>> = crate::evm::address::address_bytes(pair.token0);
            let token1: Option<Seq<u8>> = crate::evm::address::address_bytes(pair.token1);
            &&& token0 is Some && !crate::evm::address::all_zero(token0->Some_0)
            &&& token1 is Some && !crate::evm::address::all_zero(token1->Some_0)
            &&& token0 != token1
            &&& token0 == crate::evm::address::address_bytes(
                "0xb8ce59fc3717ada4c02eadf9682a9e934f625ebb"@,
            )
            &&& pair.decimals0 == 6
            &&& pair.decimals1 <= 38
            &&& crate::text::trimmed(pair.symbol).len() > 0
            &&& crate::text::trimmed(pair.spot_coin).len() > 0
            &&& pair.order_size_token1.positive()
            &&& pair.order_size_token1.value() < 1_000_000_000_000_000 as real
            &&& crate::config::readers::rate_fault(p, pair.ask_diff_percent, false) is None
            &&& crate::config::readers::rate_fault(p, pair.bid_diff_percent, true) is None
            &&& crate::config::readers::rate_fault(p, pair.min_out_bps, false) is None
            &&& crate::config::readers::rate_fault(p, pair.limit_slippage, false) is None
            &&& pair.fee_tier < 0x100_0000
        },
{
    crate::evm::amounts::lemma_quadrillion();
    crate::double::error::lemma_order(pair.order_size_token1, Double::quadrillion());
    crate::double::error::lemma_value(Double::quadrillion());
    crate::double::error::lemma_small();
    let one: real = crate::double::one_units() as real;
    let q: real = Double::quadrillion().value();
    crate::double::error::lemma_cast_product(
        1_000_000_000_000_000,
        crate::double::one_units() as int,
    );
    assert(q == 1_000_000_000_000_000 as real) by (nonlinear_arith)
        requires
            q * one == 1_000_000_000_000_000 as real * one,
            one > 0 as real,
    ;
}

/// Whether a text that must be there is there and not blank.
pub open spec fn text_ready<S: ConfigSource>(source: &S, key: Seq<char>) -> bool {
    source.lookup(key) is Some && crate::text::trimmed(source.lookup(key)->Some_0).len() > 0
}

/// Whether the text under a key, if there is one, stands for a number.
pub open spec fn number_ready<S: ConfigSource>(source: &S, key: Seq<char>) -> bool {
    source.lookup(key) is Some ==> crate::decimal::read_double(source.lookup(key)->Some_0) is Some
}

/// Whether the text under a key, if there is one, stands for a count of at most `max`.
pub open spec fn count_ready<S: ConfigSource>(source: &S, key: Seq<char>, max: nat) -> bool {
    source.lookup(key) is Some ==> {
        let count: Option<nat> = crate::decimal::read_unsigned(source.lookup(key)->Some_0);
        count is Some && count->Some_0 <= max
    }
}

/// Whether the text under a key, if there is one, says `true` or `false`.
pub open spec fn flag_ready<S: ConfigSource>(source: &S, key: Seq<char>) -> bool {
    source.lookup(key) is Some ==> {
        let word: Seq<char> = crate::text::trimmed(source.lookup(key)->Some_0);
        crate::text::same_ignoring_case(word, "true"@) || crate::text::same_ignoring_case(
            word,
            "false"@,
        )
    }
}

/// The settings of a pair can be read exactly where those that it must have are there, and all
/// that are there can be read.
pub proof fn law_pair_settings_that_can_be_read<S: ConfigSource>(
    source: &S,
    p: Seq<char>,
    min_out_bps: Double,
    limit_slippage: Double,
)
    ensures
        crate::config::pair::reading_fault(source, p, min_out_bps, limit_slippage) is None <==> {
            &&& text_ready(source, p + "_TOKEN0"@)
            &&& text_ready(source, p + "_DECIMALS0"@)
            &&& count_ready(source, p + "_DECIMALS0"@, 255)
            &&& text_ready(source, p + "_TOKEN1"@)
            &&& text_ready(source, p + "_DECIMALS1"@)
            &&& count_ready(source, p + "_DECIMALS1"@, 255)
            &&& text_ready(source, p + "_SPOT_COIN"@)
            &&& text_ready(source, p + "_ORDER_AMOUNT"@)
            &&& number_ready(source, p + "_ORDER_AMOUNT"@)
            &&& text_ready(source, p + "_ASK_DIFF_PERCENT"@)
            &&& number_ready(source, p + "_ASK_DIFF_PERCENT"@)
            &&& text_ready(source, p + "_BID_DIFF_PERCENT"@)
            &&& number_ready(source, p + "_BID_DIFF_PERCENT"@)
            &&& number_ready(source, p + "_MIN_OUT_BPS"@)
            &&& number_ready(source, p + "_LIMIT_SLIPPAGE"@)
            &&& text_ready(source, p + "_FEE_TIER"@)
            &&& count_ready(source, p + "_FEE_TIER"@, 0xffff_ffff)
            &&& flag_ready(source, p + "_ENABLE_SELL_ARB"@)
            &&& flag_ready(source, p + "_USE_HYPERSWAP"@)
            &&& flag_ready(source, p + "_USE_KITTEN"@)
        },
{
}

/// The settings of the system can be read exactly where those that it must have are there, all
/// that are there can be read, and live trading is confirmed where it is asked for.
pub proof fn law_settings_that_can_be_read<S: ConfigSource>(source: &S)
    ensures
        crate::config::global::reading_fault(source) is None <==> {
            &&& text_ready(source, "PRIVATE_KEY"@)
            &&& text_ready(source, "HTTPS_RPC"@)
            &&& text_ready(source, "WSS_RPC"@)
            &&& text_ready(source, "WSS_API"@)
            &&& number_ready(source, "MIN_OUT_BPS"@)
            &&& number_ready(source, "LIMIT_SLIPPAGE"@)
            &&& number_ready(source, "LIQUID_FEE_BPS"@)
            &&& number_ready(source, "GAS_COST_USDC"@)
            &&& number_ready(source, "PROFIT_BUFFER_BPS"@)
            &&& text_ready(source, "HYPERSWAP_ROUTER01"@)
            &&& text_ready(source, "HYPERSWAP_QUOTEV2"@)
            &&& text_ready(source, "PRJX_QUOTEV2"@)
            &&& text_ready(source, "PRJX_ROUTERV2"@)
            &&& flag_ready(source, "DRY_RUN"@)
            &&& count_ready(source, "METRICS_PORT"@, 65535)
            &&& count_ready(source, "DB_MAX_PRICE_ROWS"@, usize::MAX as nat)
            &&& source.lookup("DRY_RUN"@) is None || crate::text::same_ignoring_case(
                crate::text::trimmed(source.lookup("DRY_RUN"@)->Some_0),
                "true"@,
            ) || source.lookup("LIVE_TRADING_ACK"@) == Some("I_UNDERSTAND_THE_RISK"@)
        },
{
}

/// Settings that were read are accepted exactly where the key is not blank, the four rates lie in
/// their range, the gas is a cost of zero or more, at least one row is kept, the contracts of PRJX
/// and HyperSwap are addresses other than zero, and those of Kitten are so too or both left out.
pub proof fn law_settings_are_accepted_by_these_rules(c: crate::config::global::ConfigView)
    ensures
        crate::config::global::settings_fault(c) is None <==> {
            &&& crate::text::trimmed(c.private_key).len() > 0
            &&& crate::config::readers::rate_fault(Seq::empty(), c.min_out_bps, false) is None
            &&& crate::config::readers::rate_fault(Seq::empty(), c.limit_slippage, false) is None
            &&& crate::config::readers::rate_fault(Seq::empty(), c.liquid_fee_bps, false) is None
            &&& crate::config::readers::rate_fault(Seq::empty(), c.profit_buffer_bps, false) is None
            &&& c.gas_cost_usdc.finite() && c.gas_cost_usdc.value() >= 0 as real
            &&& c.db_max_price_rows > 0
            &&& real_address(c.hyperswap_router01)
            &&& real_address(c.hyperswap_quotev2)
            &&& real_address(c.prjx_quotev2)
            &&& real_address(c.prjx_routerv2)
            &&& c.kitten_quoter.len() == 0 || real_address(c.kitten_quoter)
            &&& c.kitten_router.len() == 0 || real_address(c.kitten_router)
            &&& c.kitten_quoter.len() == 0 <==> c.kitten_router.len() == 0
        },
{
    crate::actors::pricing::values::lemma_constants();
    crate::double::error::lemma_order(Double::nought(), c.gas_cost_usdc);
}

/// Whether a text is an address other than zero.
pub open spec fn real_address(text: Seq<char>) -> bool {
    &&& crate::evm::address::address_bytes(text) is Some
    &&& !crate::evm::address::all_zero(crate::evm::address::address_bytes(text)->Some_0)
}

} // verus!
