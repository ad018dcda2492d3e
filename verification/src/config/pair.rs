//! The configuration of one pair.
use vstd::prelude::*;

use crate::config::faults::error_at;
use crate::config::readers::{
    is_blank, parse_bool_or, parse_double_or, parse_required_count, parse_required_double, required,
    string_or, validate_address, validate_bps,
};
use crate::config::{Config, ConfigError, ConfigSource, Fault, HYPEREVM_USDC_ADDRESS};
use crate::double::Double;
use crate::evm::address::{parse_address, same_bytes};
use crate::text::{join, to_upper};

verus! {

/// The decimals of USDC.
pub const USDC_DECIMALS: u8 = 6;

/// The most decimals that an amount can be scaled by.
pub const MAX_DECIMALS: u8 = 38;

/// The largest fee tier.
pub const MAX_FEE_TIER: u32 = 0x00ff_ffff;

/// A pair to trade: token0 is USDC, token1 what is bought and sold.
#[derive(Debug)]
pub struct PairConfig {
    pub token0: String,
    pub decimals0: u8,
    pub token1: String,
    pub decimals1: u8,
    pub symbol: String,
    pub spot_coin: String,
    /// How much token1 each trade is for.
    pub order_size_token1: Double,
    pub ask_diff_percent: Double,
    pub bid_diff_percent: Double,
    pub min_out_bps: Double,
    pub limit_slippage: Double,
    pub fee_tier: u32,
    pub enable_sell_arb: bool,
    pub use_hyperswap: bool,
    pub use_kitten: bool,
}

/// What a [`PairConfig`] says.
pub ghost struct PairView {
    pub token0: Seq<char>,
    pub decimals0: nat,
    pub token1: Seq<char>,
    pub decimals1: nat,
    pub symbol: Seq<char>,
    pub spot_coin: Seq<char>,
    pub order_size_token1: Double,
    pub ask_diff_percent: Double,
    pub bid_diff_percent: Double,
    pub min_out_bps: Double,
    pub limit_slippage: Double,
    pub fee_tier: nat,
    pub enable_sell_arb: bool,
    pub use_hyperswap: bool,
    pub use_kitten: bool,
}

impl View for PairConfig {
    type V = PairView;

    open spec fn view(&self) -> PairView {
        PairView {
            token0: self.token0@,
            decimals0: self.decimals0 as nat,
            token1: self.token1@,
            decimals1: self.decimals1 as nat,
            symbol: self.symbol@,
            spot_coin: self.spot_coin@,
            order_size_token1: self.order_size_token1,
            ask_diff_percent: self.ask_diff_percent,
            bid_diff_percent: self.bid_diff_percent,
            min_out_bps: self.min_out_bps,
            limit_slippage: self.limit_slippage,
            fee_tier: self.fee_tier as nat,
            enable_sell_arb: self.enable_sell_arb,
            use_hyperswap: self.use_hyperswap,
            use_kitten: self.use_kitten,
        }
    }
}

impl Clone for PairConfig {
    fn clone(&self) -> (result: Self)
        ensures
            result == *self,
    {
        PairConfig {
            token0: self.token0.clone(),
            decimals0: self.decimals0,
            token1: self.token1.clone(),
            decimals1: self.decimals1,
            symbol: self.symbol.clone(),
            spot_coin: self.spot_coin.clone(),
            order_size_token1: self.order_size_token1,
            ask_diff_percent: self.ask_diff_percent,
            bid_diff_percent: self.bid_diff_percent,
            min_out_bps: self.min_out_bps,
            limit_slippage: self.limit_slippage,
            fee_tier: self.fee_tier,
            enable_sell_arb: self.enable_sell_arb,
            use_hyperswap: self.use_hyperswap,
            use_kitten: self.use_kitten,
        }
    }
}

/// What is wrong with the settings of a pair taken one by one, if anything. `p` is the prefix of
/// their keys; the two rates are the defaults of all pairs.
pub open spec fn reading_fault<S: ConfigSource>(
    source: &S,
    p: Seq<char>,
    min_out_bps: Double,
    limit_slippage: Double,
) -> Option<crate::config::faults::ConfigFault> {
    if let Err(fault) = crate::config::readers::required_text(source, p + "_TOKEN0"@) {
        Some(fault)
    } else if let Err(fault) = crate::config::readers::required_count(source, p + "_DECIMALS0"@, u8::MAX as nat) {
        Some(fault)
    } else if let Err(fault) = crate::config::readers::required_text(source, p + "_TOKEN1"@) {
        Some(fault)
    } else if let Err(fault) = crate::config::readers::required_count(source, p + "_DECIMALS1"@, u8::MAX as nat) {
        Some(fault)
    } else if let Err(fault) = crate::config::readers::required_text(source, p + "_SPOT_COIN"@) {
        Some(fault)
    } else if let Err(fault) = crate::config::readers::required_double(source, p + "_ORDER_AMOUNT"@) {
        Some(fault)
    } else if let Err(fault) = crate::config::readers::required_double(source, p + "_ASK_DIFF_PERCENT"@) {
        Some(fault)
    } else if let Err(fault) = crate::config::readers::required_double(source, p + "_BID_DIFF_PERCENT"@) {
        Some(fault)
    } else if let Err(fault) = crate::config::readers::double_or(source, p + "_MIN_OUT_BPS"@, min_out_bps) {
        Some(fault)
    } else if let Err(fault) = crate::config::readers::double_or(source, p + "_LIMIT_SLIPPAGE"@, limit_slippage) {
        Some(fault)
    } else if let Err(fault) = crate::config::readers::required_count(source, p + "_FEE_TIER"@, u32::MAX as nat) {
        Some(fault)
    } else if let Err(fault) = crate::config::readers::bool_or(source, p + "_ENABLE_SELL_ARB"@, false) {
        Some(fault)
    } else if let Err(fault) = crate::config::readers::bool_or(source, p + "_USE_HYPERSWAP"@, true) {
        Some(fault)
    } else if let Err(fault) = crate::config::readers::bool_or(source, p + "_USE_KITTEN"@, true) {
        Some(fault)
    } else {
        None
    }
}

/// The settings of a pair, where all of them can be read.
pub open spec fn pair_read<S: ConfigSource>(
    source: &S,
    p: Seq<char>,
    prefix: Seq<char>,
    min_out_bps: Double,
    limit_slippage: Double,
) -> PairView {
    PairView {
        token0: crate::config::readers::required_text(source, p + "_TOKEN0"@)->Ok_0,
        decimals0: crate::config::readers::required_count(source, p + "_DECIMALS0"@, u8::MAX as nat)->Ok_0,
        token1: crate::config::readers::required_text(source, p + "_TOKEN1"@)->Ok_0,
        decimals1: crate::config::readers::required_count(source, p + "_DECIMALS1"@, u8::MAX as nat)->Ok_0,
        symbol: crate::config::readers::text_or(source, p + "_SYMBOL"@, prefix),
        spot_coin: crate::config::readers::required_text(source, p + "_SPOT_COIN"@)->Ok_0,
        order_size_token1: crate::config::readers::required_double(source, p + "_ORDER_AMOUNT"@)->Ok_0,
        ask_diff_percent: crate::config::readers::required_double(source, p + "_ASK_DIFF_PERCENT"@)->Ok_0,
        bid_diff_percent: crate::config::readers::required_double(source, p + "_BID_DIFF_PERCENT"@)->Ok_0,
        min_out_bps: crate::config::readers::double_or(source, p + "_MIN_OUT_BPS"@, min_out_bps)->Ok_0,
        limit_slippage: crate::config::readers::double_or(source, p + "_LIMIT_SLIPPAGE"@, limit_slippage)->Ok_0,
        fee_tier: crate::config::readers::required_count(source, p + "_FEE_TIER"@, u32::MAX as nat)->Ok_0,
        enable_sell_arb: crate::config::readers::bool_or(source, p + "_ENABLE_SELL_ARB"@, false)->Ok_0,
        use_hyperswap: crate::config::readers::bool_or(source, p + "_USE_HYPERSWAP"@, true)->Ok_0,
        use_kitten: crate::config::readers::bool_or(source, p + "_USE_KITTEN"@, true)->Ok_0,
    }
}

/// What is wrong with a pair as a whole, if anything.
pub open spec fn pair_fault(p: Seq<char>, pair: PairView) -> Option<crate::config::faults::ConfigFault> {
    let token0: Option<Seq<u8>> = crate::evm::address::address_bytes(pair.token0);
    let token1: Option<Seq<u8>> = crate::evm::address::address_bytes(pair.token1);
    if let Some(fault) = crate::config::readers::address_fault(p + "_TOKEN0"@, pair.token0) {
        Some(fault)
    } else if let Some(fault) = crate::config::readers::address_fault(p + "_TOKEN1"@, pair.token1) {
        Some(fault)
    } else if token0 == token1 {
        Some(crate::config::faults::fault_at(Fault::SameTokens, p + "_TOKEN0"@))
    } else if token0 != crate::evm::address::address_bytes(HYPEREVM_USDC_ADDRESS@) {
        Some(crate::config::faults::fault_at(Fault::NotUsdc, p + "_TOKEN0"@))
    } else if pair.decimals0 != USDC_DECIMALS {
        Some(crate::config::faults::fault_at(Fault::NotSixDecimals, p + "_DECIMALS0"@))
    } else if pair.decimals1 > MAX_DECIMALS {
        Some(crate::config::faults::fault_at(Fault::TooManyDecimals, p + "_DECIMALS1"@))
    } else if crate::config::readers::blank(pair.symbol) {
        Some(crate::config::faults::fault_at(Fault::Empty, p + "_SYMBOL"@))
    } else if crate::config::readers::blank(pair.spot_coin) {
        Some(crate::config::faults::fault_at(Fault::Empty, p + "_SPOT_COIN"@))
    } else if !(pair.order_size_token1.positive() && pair.order_size_token1.less(
        Double::quadrillion(),
    )) {
        Some(crate::config::faults::fault_at(Fault::BadOrderSize, p + "_ORDER_AMOUNT"@))
    } else if let Some(fault) = crate::config::readers::rate_fault(
        p + "_ASK_DIFF_PERCENT"@,
        pair.ask_diff_percent,
        false,
    ) {
        Some(fault)
    } else if let Some(fault) = crate::config::readers::rate_fault(
        p + "_BID_DIFF_PERCENT"@,
        pair.bid_diff_percent,
        true,
    ) {
        Some(fault)
    } else if let Some(fault) = crate::config::readers::rate_fault(
        p + "_MIN_OUT_BPS"@,
        pair.min_out_bps,
        false,
    ) {
        Some(fault)
    } else if let Some(fault) = crate::config::readers::rate_fault(
        p + "_LIMIT_SLIPPAGE"@,
        pair.limit_slippage,
        false,
    ) {
        Some(fault)
    } else if pair.fee_tier > MAX_FEE_TIER {
        Some(crate::config::faults::fault_at(Fault::BadFeeTier, p + "_FEE_TIER"@))
    } else {
        None
    }
}

/// The pair that stands under a prefix, or what is wrong with it. Keys begin with the prefix in
/// upper case; the prefix as given is the default symbol.
pub open spec fn pair_under<S: ConfigSource>(
    source: &S,
    prefix: Seq<char>,
    min_out_bps: Double,
    limit_slippage: Double,
) -> Result<PairView, crate::config::faults::ConfigFault> {
    let p: Seq<char> = crate::text::upper_case(prefix);
    match reading_fault(source, p, min_out_bps, limit_slippage) {
        Some(fault) => Err(fault),
        None => {
            let pair: PairView = pair_read(source, p, prefix, min_out_bps, limit_slippage);
            match pair_fault(p, pair) {
                Some(fault) => Err(fault),
                None => Ok(pair),
            }
        },
    }
}

impl PairConfig {
    fn read_from<S: ConfigSource>(
        source: &S,
        p: &str,
        prefix: &str,
        min_out_bps: Double,
        limit_slippage: Double,
    ) -> (result: Result<PairConfig, ConfigError>)
        ensures
            match result {
                Ok(pair) => {
                    &&& reading_fault(source, p@, min_out_bps, limit_slippage) is None
                    &&& pair@ == pair_read(source, p@, prefix@, min_out_bps, limit_slippage)
                },
                Err(error) => reading_fault(source, p@, min_out_bps, limit_slippage) == Some(
                    error@,
                ),
            },
    {
        let token0: String = match required(source, join(p, "_TOKEN0").as_str()) {
            Ok(value) => value,
            Err(error) => {
                return Err(error);
            },
        };
        let decimals0: u64 = match parse_required_count(source, join(p, "_DECIMALS0").as_str(), u8::MAX as u64) {
            Ok(value) => value,
            Err(error) => {
                return Err(error);
            },
        };
        let token1: String = match required(source, join(p, "_TOKEN1").as_str()) {
            Ok(value) => value,
            Err(error) => {
                return Err(error);
            },
        };
        let decimals1: u64 = match parse_required_count(source, join(p, "_DECIMALS1").as_str(), u8::MAX as u64) {
            Ok(value) => value,
            Err(error) => {
                return Err(error);
            },
        };
        let symbol: String = string_or(source, join(p, "_SYMBOL").as_str(), prefix);
        let spot_coin: String = match required(source, join(p, "_SPOT_COIN").as_str()) {
            Ok(value) => value,
            Err(error) => {
                return Err(error);
            },
        };
        let order_size_token1: Double = match parse_required_double(source, join(p, "_ORDER_AMOUNT").as_str()) {
            Ok(value) => value,
            Err(error) => {
                return Err(error);
            },
        };
        let ask_diff_percent: Double = match parse_required_double(source, join(p, "_ASK_DIFF_PERCENT").as_str()) {
            Ok(value) => value,
            Err(error) => {
                return Err(error);
            },
        };
        let bid_diff_percent: Double = match parse_required_double(source, join(p, "_BID_DIFF_PERCENT").as_str()) {
            Ok(value) => value,
            Err(error) => {
                return Err(error);
            },
        };
        let min_out_bps: Double = match parse_double_or(source, join(p, "_MIN_OUT_BPS").as_str(), min_out_bps) {
            Ok(value) => value,
            Err(error) => {
                return Err(error);
            },
        };
        let limit_slippage: Double = match parse_double_or(source, join(p, "_LIMIT_SLIPPAGE").as_str(), limit_slippage) {
            Ok(value) => value,
            Err(error) => {
                return Err(error);
            },
        };
        let fee_tier: u64 = match parse_required_count(source, join(p, "_FEE_TIER").as_str(), u32::MAX as u64) {
            Ok(value) => value,
            Err(error) => {
                return Err(error);
            },
        };
        let enable_sell_arb: bool = match parse_bool_or(source, join(p, "_ENABLE_SELL_ARB").as_str(), false) {
            Ok(value) => value,
            Err(error) => {
                return Err(error);
            },
        };
        let use_hyperswap: bool = match parse_bool_or(source, join(p, "_USE_HYPERSWAP").as_str(), true) {
            Ok(value) => value,
            Err(error) => {
                return Err(error);
            },
        };
        let use_kitten: bool = match parse_bool_or(source, join(p, "_USE_KITTEN").as_str(), true) {
            Ok(value) => value,
            Err(error) => {
                return Err(error);
            },
        };
        Ok(
            PairConfig {
                token0,
                decimals0: decimals0 as u8,
                token1,
                decimals1: decimals1 as u8,
                symbol,
                spot_coin,
                order_size_token1,
                ask_diff_percent,
                bid_diff_percent,
                min_out_bps,
                limit_slippage,
                fee_tier: fee_tier as u32,
                enable_sell_arb,
                use_hyperswap,
                use_kitten,
            },
        )
    }

    /// Refuses a pair that breaks a rule.
    pub fn validate(&self, p: &str) -> (result: Result<(), ConfigError>)
        ensures
            match result {
                Ok(()) => pair_fault(p@, self@) is None,
                Err(error) => pair_fault(p@, self@) == Some(error@),
            },
    {
        match validate_address(join(p, "_TOKEN0").as_str(), self.token0.as_str()) {
            Ok(()) => {},
            Err(error) => {
                return Err(error);
            },
        }
        match validate_address(join(p, "_TOKEN1").as_str(), self.token1.as_str()) {
            Ok(()) => {},
            Err(error) => {
                return Err(error);
            },
        }
        let token0: Option<Vec<u8>> = address_in(self.token0.as_str());
        let token1: Option<Vec<u8>> = address_in(self.token1.as_str());
        let usdc: Option<Vec<u8>> = address_in(HYPEREVM_USDC_ADDRESS);
        if same_address(&token0, &token1) {
            return Err(error_at(Fault::SameTokens, join(p, "_TOKEN0").as_str()));
        }
        if !same_address(&token0, &usdc) {
            return Err(error_at(Fault::NotUsdc, join(p, "_TOKEN0").as_str()));
        }
        if self.decimals0 != USDC_DECIMALS {
            return Err(error_at(Fault::NotSixDecimals, join(p, "_DECIMALS0").as_str()));
        }
        if self.decimals1 > MAX_DECIMALS {
            return Err(error_at(Fault::TooManyDecimals, join(p, "_DECIMALS1").as_str()));
        }
        if is_blank(self.symbol.as_str()) {
            return Err(error_at(Fault::Empty, join(p, "_SYMBOL").as_str()));
        }
        if is_blank(self.spot_coin.as_str()) {
            return Err(error_at(Fault::Empty, join(p, "_SPOT_COIN").as_str()));
        }
        let size: Double = self.order_size_token1;
        if !(size.is_positive() && size.is_less(Double::quadrillion())) {
            return Err(error_at(Fault::BadOrderSize, join(p, "_ORDER_AMOUNT").as_str()));
        }
        match validate_bps(join(p, "_ASK_DIFF_PERCENT").as_str(), self.ask_diff_percent, false) {
            Ok(()) => {},
            Err(error) => {
                return Err(error);
            },
        }
        match validate_bps(join(p, "_BID_DIFF_PERCENT").as_str(), self.bid_diff_percent, true) {
            Ok(()) => {},
            Err(error) => {
                return Err(error);
            },
        }
        match validate_bps(join(p, "_MIN_OUT_BPS").as_str(), self.min_out_bps, false) {
            Ok(()) => {},
            Err(error) => {
                return Err(error);
            },
        }
        match validate_bps(join(p, "_LIMIT_SLIPPAGE").as_str(), self.limit_slippage, false) {
            Ok(()) => {},
            Err(error) => {
                return Err(error);
            },
        }
        if self.fee_tier > MAX_FEE_TIER {
            return Err(error_at(Fault::BadFeeTier, join(p, "_FEE_TIER").as_str()));
        }
        Ok(())
    }

    /// Reads the pair that stands under a prefix.
    pub fn try_from_source_prefix<S: ConfigSource>(
        source: &S,
        prefix: &str,
        global: &Config,
    ) -> (result: Result<PairConfig, ConfigError>)
        ensures
            match result {
                Ok(pair) => pair_under(
                    source,
                    prefix@,
                    global.min_out_bps,
                    global.limit_slippage,
                ) == Ok::<
                    PairView,
                    crate::config::faults::ConfigFault,
                >(pair@),
                Err(error) => pair_under(
                    source,
                    prefix@,
                    global.min_out_bps,
                    global.limit_slippage,
                ) == Err::<
                    PairView,
                    crate::config::faults::ConfigFault,
                >(error@),
            },
    {
        let p: String = to_upper(prefix);
        let pair: PairConfig = match PairConfig::read_from(
            source,
            p.as_str(),
            prefix,
            global.min_out_bps,
            global.limit_slippage,
        ) {
            Ok(pair) => pair,
            Err(error) => {
                return Err(error);
            },
        };
        match pair.validate(p.as_str()) {
            Ok(()) => Ok(pair),
            Err(error) => Err(error),
        }
    }
}

fn address_in(text: &str) -> (address: Option<Vec<u8>>)
    ensures
        match address {
            Some(bytes) => crate::evm::address::address_bytes(text@) == Some(bytes@),
            None => crate::evm::address::address_bytes(text@) is None,
        },
{
    match parse_address(text) {
        Ok(bytes) => Some(bytes),
        Err(_) => None,
    }
}

fn same_address(a: &Option<Vec<u8>>, b: &Option<Vec<u8>>) -> (same: bool)
    ensures
        same == match (*a, *b) {
            (Some(x), Some(y)) => x@ == y@,
            (None, None) => true,
            _ => false,
        },
{
    match (a, b) {
        (Some(x), Some(y)) => same_bytes(x, y),
        (None, None) => true,
        _ => false,
    }
}

} // verus!
