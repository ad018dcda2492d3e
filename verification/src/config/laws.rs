//! What holds of every configuration that was accepted.
use vstd::prelude::*;

use crate::config::{ConfigSource, HYPEREVM_USDC_ADDRESS, LIVE_TRADING_ACK};
use crate::double::Double;

verus! {

/// Trading is simulated unless the source says otherwise.
pub proof fn law_dry_run_is_the_default<S: ConfigSource>(
    source: &S,
    config: crate::config::global::ConfigView,
)
    requires
        crate::config::global::configuration(source) == Ok::<
            crate::config::global::ConfigView,
            crate::config::faults::ConfigFault,
        >(config),
        source.lookup("DRY_RUN"@) is None,
    ensures
        config.dry_run,
{
}

/// Live trading never starts without its confirmation.
pub proof fn law_live_trading_is_acknowledged<S: ConfigSource>(
    source: &S,
    config: crate::config::global::ConfigView,
)
    requires
        crate::config::global::configuration(source) == Ok::<
            crate::config::global::ConfigView,
            crate::config::faults::ConfigFault,
        >(config),
        !config.dry_run,
    ensures
        source.lookup("LIVE_TRADING_ACK"@) == Some(LIVE_TRADING_ACK@),
{
}

/// The settings of an accepted configuration break no rule.
pub proof fn law_accepted_settings_are_valid<S: ConfigSource>(
    source: &S,
    config: crate::config::global::ConfigView,
)
    requires
        crate::config::global::configuration(source) == Ok::<
            crate::config::global::ConfigView,
            crate::config::faults::ConfigFault,
        >(config),
    ensures
        crate::config::global::settings_fault(config) is None,
        config.pairs.len() > 0,
{
    let list: Seq<char> = crate::config::readers::required_text(source, "PAIRS"@)->Ok_0;
    let prefixes: Seq<Seq<char>> = crate::config::global::prefixes_in(
        crate::text::split_parts(list, ','),
    );
    lemma_pairs(source, prefixes, config.min_out_bps, config.limit_slippage);
}

/// No two pairs of an accepted configuration have the same symbol.
pub proof fn law_symbols_are_distinct<S: ConfigSource>(
    source: &S,
    config: crate::config::global::ConfigView,
)
    requires
        crate::config::global::configuration(source) == Ok::<
            crate::config::global::ConfigView,
            crate::config::faults::ConfigFault,
        >(config),
    ensures
        forall|i: int, j: int|
            0 <= i < j < config.pairs.len() ==> (#[trigger] config.pairs[i]).symbol != (
            #[trigger] config.pairs[j]).symbol,
{
    let list: Seq<char> = crate::config::readers::required_text(source, "PAIRS"@)->Ok_0;
    let prefixes: Seq<Seq<char>> = crate::config::global::prefixes_in(
        crate::text::split_parts(list, ','),
    );
    lemma_pairs(source, prefixes, config.min_out_bps, config.limit_slippage);
}

/// Every pair of an accepted configuration trades USDC against another token, in a size that is
/// positive and below 10^15, with at most 38 decimals and rates within their bounds.
pub proof fn law_accepted_pairs_are_valid<S: ConfigSource>(
    source: &S,
    config: crate::config::global::ConfigView,
    i: int,
)
    requires
        crate::config::global::configuration(source) == Ok::<
            crate::config::global::ConfigView,
            crate::config::faults::ConfigFault,
        >(config),
        0 <= i < config.pairs.len(),
    ensures
        ({
            let pair: crate::config::pair::PairView = config.pairs[i];
            &&& crate::evm::address::address_bytes(pair.token0)
                == crate::evm::address::address_bytes(HYPEREVM_USDC_ADDRESS@)
            &&& crate::evm::address::address_bytes(pair.token1) is Some
            &&& crate::evm::address::address_bytes(pair.token1)
                != crate::evm::address::address_bytes(pair.token0)
            &&& pair.decimals0 == 6
            &&& pair.decimals1 <= 38
            &&& pair.order_size_token1.positive()
            &&& pair.order_size_token1.less(Double::quadrillion())
            &&& crate::config::readers::rate_fault(""@, pair.limit_slippage, false) is None
            &&& crate::config::readers::rate_fault(""@, pair.min_out_bps, false) is None
            &&& pair.fee_tier < 0x100_0000
        }),
{
    let list: Seq<char> = crate::config::readers::required_text(source, "PAIRS"@)->Ok_0;
    let prefixes: Seq<Seq<char>> = crate::config::global::prefixes_in(
        crate::text::split_parts(list, ','),
    );
    lemma_pairs(source, prefixes, config.min_out_bps, config.limit_slippage);
    assert(crate::config::pair::pair_under(
        source,
        prefixes[i],
        config.min_out_bps,
        config.limit_slippage,
    ) is Ok);
}

/// The pairs under a list of prefixes are those under each prefix, with distinct symbols.
pub proof fn lemma_pairs<S: ConfigSource>(
    source: &S,
    prefixes: Seq<Seq<char>>,
    min_out_bps: Double,
    limit_slippage: Double,
)
    requires
        crate::config::global::pairs_under(source, prefixes, min_out_bps, limit_slippage) is Ok,
    ensures
        ({
            let pairs: Seq<crate::config::pair::PairView> = crate::config::global::pairs_under(
                source,
                prefixes,
                min_out_bps,
                limit_slippage,
            )->Ok_0;
            &&& pairs.len() == prefixes.len()
            &&& forall|i: int|
                0 <= i < pairs.len() ==> crate::config::pair::pair_under(
                    source,
                    #[trigger] prefixes[i],
                    min_out_bps,
                    limit_slippage,
                ) == Ok::<crate::config::pair::PairView, crate::config::faults::ConfigFault>(
                    pairs[i],
                )
            &&& forall|i: int, j: int|
                0 <= i < j < pairs.len() ==> (#[trigger] pairs[i]).symbol != (
                #[trigger] pairs[j]).symbol
        }),
    decreases prefixes.len(),
{
    if prefixes.len() > 0 {
        lemma_pairs(source, prefixes.drop_last(), min_out_bps, limit_slippage);
        let before: Seq<crate::config::pair::PairView> = crate::config::global::pairs_under(
            source,
            prefixes.drop_last(),
            min_out_bps,
            limit_slippage,
        )->Ok_0;
        let pairs: Seq<crate::config::pair::PairView> = crate::config::global::pairs_under(
            source,
            prefixes,
            min_out_bps,
            limit_slippage,
        )->Ok_0;
        assert forall|i: int| 0 <= i < pairs.len() implies crate::config::pair::pair_under(
            source,
            #[trigger] prefixes[i],
            min_out_bps,
            limit_slippage,
        ) == Ok::<crate::config::pair::PairView, crate::config::faults::ConfigFault>(pairs[i]) by {
            if i < before.len() {
                assert(prefixes.drop_last()[i] == prefixes[i]);
            }
        }
        assert forall|i: int, j: int| 0 <= i < j < pairs.len() implies (
        #[trigger] pairs[i]).symbol != (#[trigger] pairs[j]).symbol by {
            assert(before[i] == pairs[i]);
            if j < before.len() {
                assert(before[j] == pairs[j]);
            }
        }
    }
}

} // verus!
