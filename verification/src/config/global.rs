//! The configuration of the whole system.
use vstd::prelude::*;

use crate::config::faults::{error_at, error_of};
use crate::config::readers::{
    is_blank, parse_bool_or, parse_count_or, parse_double_or, required, string_or, validate_address,
    validate_bps, validate_optional_address,
};
use crate::config::{ConfigError, ConfigSource, Fault, PairConfig, LIVE_TRADING_ACK};
use crate::double::Double;
use crate::text::{same, split, to_upper, trim};

verus! {

/// 30
pub const DEFAULT_MIN_OUT_BPS: u64 = 0x403e_0000_0000_0000;

/// 21
pub const DEFAULT_LIMIT_SLIPPAGE: u64 = 0x4035_0000_0000_0000;

/// 1
pub const DEFAULT_LIQUID_FEE_BPS: u64 = 0x3ff0_0000_0000_0000;

/// 0.02
pub const DEFAULT_GAS_COST_USDC: u64 = 0x3f94_7ae1_47ae_147b;

/// 12
pub const DEFAULT_PROFIT_BUFFER_BPS: u64 = 0x4028_0000_0000_0000;

/// The settings of the system and its pairs.
#[derive(Clone)]
pub struct Config {
    pub private_key: String,
    pub https_rpc: String,
    pub wss_rpc: String,
    pub wss_api: String,
    pub min_out_bps: Double,
    pub limit_slippage: Double,
    pub liquid_fee_bps: Double,
    /// The estimated cost of gas for one transaction, in token0.
    pub gas_cost_usdc: Double,
    pub profit_buffer_bps: Double,
    pub hyperswap_router01: String,
    pub hyperswap_quotev2: String,
    pub prjx_quotev2: String,
    pub prjx_routerv2: String,
    pub kitten_quoter: String,
    pub kitten_router: String,
    pub dry_run: bool,
    pub metrics_port: u16,
    pub metrics_host: String,
    pub log_dir: String,
    pub db_path: String,
    pub db_max_price_rows: usize,
    pub pairs: Vec<PairConfig>,
}

/// What a [`Config`] says.
#[verifier::ext_equal]
pub ghost struct ConfigView {
    pub private_key: Seq<char>,
    pub https_rpc: Seq<char>,
    pub wss_rpc: Seq<char>,
    pub wss_api: Seq<char>,
    pub min_out_bps: Double,
    pub limit_slippage: Double,
    pub liquid_fee_bps: Double,
    pub gas_cost_usdc: Double,
    pub profit_buffer_bps: Double,
    pub hyperswap_router01: Seq<char>,
    pub hyperswap_quotev2: Seq<char>,
    pub prjx_quotev2: Seq<char>,
    pub prjx_routerv2: Seq<char>,
    pub kitten_quoter: Seq<char>,
    pub kitten_router: Seq<char>,
    pub dry_run: bool,
    pub metrics_port: nat,
    pub metrics_host: Seq<char>,
    pub log_dir: Seq<char>,
    pub db_path: Seq<char>,
    pub db_max_price_rows: nat,
    pub pairs: Seq<crate::config::pair::PairView>,
}

/// What a list of pairs says.
pub open spec fn pairs_view(pairs: Seq<PairConfig>) -> Seq<crate::config::pair::PairView> {
    Seq::new(pairs.len(), |i: int| pairs[i]@)
}

impl View for Config {
    type V = ConfigView;

    open spec fn view(&self) -> ConfigView {
        ConfigView {
            private_key: self.private_key@,
            https_rpc: self.https_rpc@,
            wss_rpc: self.wss_rpc@,
            wss_api: self.wss_api@,
            min_out_bps: self.min_out_bps,
            limit_slippage: self.limit_slippage,
            liquid_fee_bps: self.liquid_fee_bps,
            gas_cost_usdc: self.gas_cost_usdc,
            profit_buffer_bps: self.profit_buffer_bps,
            hyperswap_router01: self.hyperswap_router01@,
            hyperswap_quotev2: self.hyperswap_quotev2@,
            prjx_quotev2: self.prjx_quotev2@,
            prjx_routerv2: self.prjx_routerv2@,
            kitten_quoter: self.kitten_quoter@,
            kitten_router: self.kitten_router@,
            dry_run: self.dry_run,
            metrics_port: self.metrics_port as nat,
            metrics_host: self.metrics_host@,
            log_dir: self.log_dir@,
            db_path: self.db_path@,
            db_max_price_rows: self.db_max_price_rows as nat,
            pairs: pairs_view(self.pairs@),
        }
    }
}

/// Live trading needs its confirmation, letter for letter.
pub open spec fn acknowledgement_fault<S: ConfigSource>(source: &S, dry_run: bool) -> Option<
    crate::config::faults::ConfigFault,
> {
    if !dry_run && source.lookup("LIVE_TRADING_ACK"@) != Some(LIVE_TRADING_ACK@) {
        Some(crate::config::faults::fault_at(Fault::NotAcknowledged, "LIVE_TRADING_ACK"@))
    } else {
        None
    }
}

/// What is wrong with the settings taken one by one, if anything.
pub open spec fn reading_fault<S: ConfigSource>(source: &S) -> Option<crate::config::faults::ConfigFault> {
    let dry_run: Result<bool, crate::config::faults::ConfigFault> = crate::config::readers::bool_or(source, "DRY_RUN"@, true);
    if let Err(fault) = dry_run {
        Some(fault)
    } else if let Some(fault) = acknowledgement_fault(source, dry_run->Ok_0) {
        Some(fault)
    } else if let Err(fault) = crate::config::readers::required_text(source, "PRIVATE_KEY"@) {
        Some(fault)
    } else if let Err(fault) = crate::config::readers::required_text(source, "HTTPS_RPC"@) {
        Some(fault)
    } else if let Err(fault) = crate::config::readers::required_text(source, "WSS_RPC"@) {
        Some(fault)
    } else if let Err(fault) = crate::config::readers::required_text(source, "WSS_API"@) {
        Some(fault)
    } else if let Err(fault) = crate::config::readers::double_or(
        source,
        "MIN_OUT_BPS"@,
        Double { bits: DEFAULT_MIN_OUT_BPS },
    ) {
        Some(fault)
    } else if let Err(fault) = crate::config::readers::double_or(
        source,
        "LIMIT_SLIPPAGE"@,
        Double { bits: DEFAULT_LIMIT_SLIPPAGE },
    ) {
        Some(fault)
    } else if let Err(fault) = crate::config::readers::double_or(
        source,
        "LIQUID_FEE_BPS"@,
        Double { bits: DEFAULT_LIQUID_FEE_BPS },
    ) {
        Some(fault)
    } else if let Err(fault) = crate::config::readers::double_or(
        source,
        "GAS_COST_USDC"@,
        Double { bits: DEFAULT_GAS_COST_USDC },
    ) {
        Some(fault)
    } else if let Err(fault) = crate::config::readers::double_or(
        source,
        "PROFIT_BUFFER_BPS"@,
        Double { bits: DEFAULT_PROFIT_BUFFER_BPS },
    ) {
        Some(fault)
    } else if let Err(fault) = crate::config::readers::required_text(source, "HYPERSWAP_ROUTER01"@) {
        Some(fault)
    } else if let Err(fault) = crate::config::readers::required_text(source, "HYPERSWAP_QUOTEV2"@) {
        Some(fault)
    } else if let Err(fault) = crate::config::readers::required_text(source, "PRJX_QUOTEV2"@) {
        Some(fault)
    } else if let Err(fault) = crate::config::readers::required_text(source, "PRJX_ROUTERV2"@) {
        Some(fault)
    } else if let Err(fault) = crate::config::readers::count_or(source, "METRICS_PORT"@, u16::MAX as nat, 9090) {
        Some(fault)
    } else if let Err(fault) = crate::config::readers::count_or(source, "DB_MAX_PRICE_ROWS"@, usize::MAX as nat, 1_000_000) {
        Some(fault)
    } else {
        None
    }
}

/// The settings, where all of them can be read, with no pairs yet.
pub open spec fn settings_read<S: ConfigSource>(source: &S) -> ConfigView {
    ConfigView {
        private_key: crate::config::readers::required_text(source, "PRIVATE_KEY"@)->Ok_0,
        https_rpc: crate::config::readers::required_text(source, "HTTPS_RPC"@)->Ok_0,
        wss_rpc: crate::config::readers::required_text(source, "WSS_RPC"@)->Ok_0,
        wss_api: crate::config::readers::required_text(source, "WSS_API"@)->Ok_0,
        min_out_bps: crate::config::readers::double_or(
        source,
        "MIN_OUT_BPS"@,
        Double { bits: DEFAULT_MIN_OUT_BPS },
    )->Ok_0,
        limit_slippage: crate::config::readers::double_or(
        source,
        "LIMIT_SLIPPAGE"@,
        Double { bits: DEFAULT_LIMIT_SLIPPAGE },
    )->Ok_0,
        liquid_fee_bps: crate::config::readers::double_or(
        source,
        "LIQUID_FEE_BPS"@,
        Double { bits: DEFAULT_LIQUID_FEE_BPS },
    )->Ok_0,
        gas_cost_usdc: crate::config::readers::double_or(
        source,
        "GAS_COST_USDC"@,
        Double { bits: DEFAULT_GAS_COST_USDC },
    )->Ok_0,
        profit_buffer_bps: crate::config::readers::double_or(
        source,
        "PROFIT_BUFFER_BPS"@,
        Double { bits: DEFAULT_PROFIT_BUFFER_BPS },
    )->Ok_0,
        hyperswap_router01: crate::config::readers::required_text(source, "HYPERSWAP_ROUTER01"@)->Ok_0,
        hyperswap_quotev2: crate::config::readers::required_text(source, "HYPERSWAP_QUOTEV2"@)->Ok_0,
        prjx_quotev2: crate::config::readers::required_text(source, "PRJX_QUOTEV2"@)->Ok_0,
        prjx_routerv2: crate::config::readers::required_text(source, "PRJX_ROUTERV2"@)->Ok_0,
        kitten_quoter: crate::config::readers::text_or(source, "KITTEN_QUOTER"@, ""@),
        kitten_router: crate::config::readers::text_or(source, "KITTEN_ROUTER"@, ""@),
        dry_run: crate::config::readers::bool_or(source, "DRY_RUN"@, true)->Ok_0,
        metrics_port: crate::config::readers::count_or(source, "METRICS_PORT"@, u16::MAX as nat, 9090)->Ok_0,
        metrics_host: crate::config::readers::text_or(source, "METRICS_HOST"@, "127.0.0.1"@),
        log_dir: crate::config::readers::text_or(source, "LOG_DIR"@, "logs"@),
        db_path: crate::config::readers::text_or(source, "DB_PATH"@, "data.db"@),
        db_max_price_rows: crate::config::readers::count_or(source, "DB_MAX_PRICE_ROWS"@, usize::MAX as nat, 1_000_000)->Ok_0,
        pairs: Seq::empty(),
    }
}

/// What is wrong with the settings as a whole, if anything.
pub open spec fn settings_fault(c: ConfigView) -> Option<crate::config::faults::ConfigFault> {
    if crate::config::readers::blank(c.private_key) {
        Some(crate::config::faults::fault_at(Fault::Empty, "PRIVATE_KEY"@))
    } else if let Some(fault) = crate::config::readers::rate_fault("MIN_OUT_BPS"@, c.min_out_bps, false) {
        Some(fault)
    } else if let Some(fault) = crate::config::readers::rate_fault("LIMIT_SLIPPAGE"@, c.limit_slippage, false) {
        Some(fault)
    } else if let Some(fault) = crate::config::readers::rate_fault("LIQUID_FEE_BPS"@, c.liquid_fee_bps, false) {
        Some(fault)
    } else if let Some(fault) = crate::config::readers::rate_fault("PROFIT_BUFFER_BPS"@, c.profit_buffer_bps, false) {
        Some(fault)
    } else if !(c.gas_cost_usdc.finite() && Double::nought().at_most(c.gas_cost_usdc)) {
        Some(crate::config::faults::fault_at(Fault::NotACost, "GAS_COST_USDC"@))
    } else if c.db_max_price_rows == 0 {
        Some(crate::config::faults::fault_at(Fault::Zero, "DB_MAX_PRICE_ROWS"@))
    } else if let Some(fault) = crate::config::readers::address_fault("HYPERSWAP_ROUTER01"@, c.hyperswap_router01) {
        Some(fault)
    } else if let Some(fault) = crate::config::readers::address_fault("HYPERSWAP_QUOTEV2"@, c.hyperswap_quotev2) {
        Some(fault)
    } else if let Some(fault) = crate::config::readers::address_fault("PRJX_QUOTEV2"@, c.prjx_quotev2) {
        Some(fault)
    } else if let Some(fault) = crate::config::readers::address_fault("PRJX_ROUTERV2"@, c.prjx_routerv2) {
        Some(fault)
    } else if let Some(fault) = crate::config::readers::optional_address_fault("KITTEN_QUOTER"@, c.kitten_quoter) {
        Some(fault)
    } else if let Some(fault) = crate::config::readers::optional_address_fault("KITTEN_ROUTER"@, c.kitten_router) {
        Some(fault)
    } else if (c.kitten_quoter.len() == 0) != (c.kitten_router.len() == 0) {
        Some(crate::config::faults::fault_at(Fault::HalfConfigured, "KITTEN_QUOTER"@))
    } else {
        None
    }
}

/// The prefixes named in a list: the parts between commas, without white space around them, in
/// upper case, empty ones left out.
pub open spec fn prefixes_in(parts: Seq<Seq<char>>) -> Seq<Seq<char>>
    decreases parts.len(),
{
    if parts.len() == 0 {
        Seq::empty()
    } else {
        let before: Seq<Seq<char>> = prefixes_in(parts.drop_last());
        let prefix: Seq<char> = crate::text::upper_case(crate::text::trimmed(parts.last()));
        if prefix.len() == 0 {
            before
        } else {
            before.push(prefix)
        }
    }
}

/// Whether a pair among `pairs` has the symbol.
pub open spec fn symbol_taken(pairs: Seq<crate::config::pair::PairView>, symbol: Seq<char>) -> bool {
    exists|i: int| 0 <= i < pairs.len() && (#[trigger] pairs[i]).symbol == symbol
}

/// The pairs under the prefixes, or the first fault: each pair must be good, and its symbol not
/// that of a pair before it.
pub open spec fn pairs_under<S: ConfigSource>(
    source: &S,
    prefixes: Seq<Seq<char>>,
    min_out_bps: Double,
    limit_slippage: Double,
) -> Result<Seq<crate::config::pair::PairView>, crate::config::faults::ConfigFault>
    decreases prefixes.len(),
{
    if prefixes.len() == 0 {
        Ok(Seq::empty())
    } else {
        match pairs_under(source, prefixes.drop_last(), min_out_bps, limit_slippage) {
            Err(fault) => Err(fault),
            Ok(before) => match crate::config::pair::pair_under(
                source,
                prefixes.last(),
                min_out_bps,
                limit_slippage,
            ) {
                Err(fault) => Err(fault),
                Ok(pair) => if symbol_taken(before, pair.symbol) {
                    Err(
                        crate::config::faults::ConfigFault {
                            fault: Fault::DuplicateSymbol,
                            key: prefixes.last(),
                            value: pair.symbol,
                        },
                    )
                } else {
                    Ok(before.push(pair))
                },
            },
        }
    }
}

/// The configuration that a source gives, or what is wrong with it.
pub open spec fn configuration<S: ConfigSource>(source: &S) -> Result<ConfigView, crate::config::faults::ConfigFault> {
    let settings: ConfigView = settings_read(source);
    if let Some(fault) = reading_fault(source) {
        Err(fault)
    } else if let Some(fault) = settings_fault(settings) {
        Err(fault)
    } else {
        match crate::config::readers::required_text(source, "PAIRS"@) {
            Err(fault) => Err(fault),
            Ok(list) => {
                let prefixes: Seq<Seq<char>> = prefixes_in(crate::text::split_parts(list, ','));
                if prefixes.len() == 0 {
                    Err(crate::config::faults::fault_at(Fault::NoPairs, "PAIRS"@))
                } else {
                    match pairs_under(
                        source,
                        prefixes,
                        settings.min_out_bps,
                        settings.limit_slippage,
                    ) {
                        Err(fault) => Err(fault),
                        Ok(pairs) => Ok(ConfigView { pairs, ..settings }),
                    }
                }
            },
        }
    }
}

impl Config {
    fn read_from<S: ConfigSource>(source: &S) -> (result: Result<Config, ConfigError>)
        ensures
            match result {
                Ok(config) => reading_fault(source) is None && config@ == settings_read(source),
                Err(error) => reading_fault(source) == Some(error@),
            },
    {
        let dry_run: bool = match parse_bool_or(source, "DRY_RUN", true) {
            Ok(value) => value,
            Err(error) => {
                return Err(error);
            },
        };
        if !dry_run {
            let acknowledged: bool = match source.get("LIVE_TRADING_ACK") {
                Some(text) => same(text.as_str(), LIVE_TRADING_ACK),
                None => false,
            };
            if !acknowledged {
                return Err(error_at(Fault::NotAcknowledged, "LIVE_TRADING_ACK"));
            }
        }
        let private_key: String = match required(source, "PRIVATE_KEY") {
            Ok(value) => value,
            Err(error) => {
                return Err(error);
            },
        };
        let https_rpc: String = match required(source, "HTTPS_RPC") {
            Ok(value) => value,
            Err(error) => {
                return Err(error);
            },
        };
        let wss_rpc: String = match required(source, "WSS_RPC") {
            Ok(value) => value,
            Err(error) => {
                return Err(error);
            },
        };
        let wss_api: String = match required(source, "WSS_API") {
            Ok(value) => value,
            Err(error) => {
                return Err(error);
            },
        };
        let min_out_bps: Double = match parse_double_or(
            source,
            "MIN_OUT_BPS",
            Double { bits: DEFAULT_MIN_OUT_BPS },
        ) {
            Ok(value) => value,
            Err(error) => {
                return Err(error);
            },
        };
        let limit_slippage: Double = match parse_double_or(
            source,
            "LIMIT_SLIPPAGE",
            Double { bits: DEFAULT_LIMIT_SLIPPAGE },
        ) {
            Ok(value) => value,
            Err(error) => {
                return Err(error);
            },
        };
        let liquid_fee_bps: Double = match parse_double_or(
            source,
            "LIQUID_FEE_BPS",
            Double { bits: DEFAULT_LIQUID_FEE_BPS },
        ) {
            Ok(value) => value,
            Err(error) => {
                return Err(error);
            },
        };
        let gas_cost_usdc: Double = match parse_double_or(
            source,
            "GAS_COST_USDC",
            Double { bits: DEFAULT_GAS_COST_USDC },
        ) {
            Ok(value) => value,
            Err(error) => {
                return Err(error);
            },
        };
        let profit_buffer_bps: Double = match parse_double_or(
            source,
            "PROFIT_BUFFER_BPS",
            Double { bits: DEFAULT_PROFIT_BUFFER_BPS },
        ) {
            Ok(value) => value,
            Err(error) => {
                return Err(error);
            },
        };
        let hyperswap_router01: String = match required(source, "HYPERSWAP_ROUTER01") {
            Ok(value) => value,
            Err(error) => {
                return Err(error);
            },
        };
        let hyperswap_quotev2: String = match required(source, "HYPERSWAP_QUOTEV2") {
            Ok(value) => value,
            Err(error) => {
                return Err(error);
            },
        };
        let prjx_quotev2: String = match required(source, "PRJX_QUOTEV2") {
            Ok(value) => value,
            Err(error) => {
                return Err(error);
            },
        };
        let prjx_routerv2: String = match required(source, "PRJX_ROUTERV2") {
            Ok(value) => value,
            Err(error) => {
                return Err(error);
            },
        };
        let metrics_port: u64 = match parse_count_or(source, "METRICS_PORT", u16::MAX as u64, 9090) {
            Ok(value) => value,
            Err(error) => {
                return Err(error);
            },
        };
        let db_max_price_rows: u64 = match parse_count_or(source, "DB_MAX_PRICE_ROWS", usize::MAX as u64, 1_000_000) {
            Ok(value) => value,
            Err(error) => {
                return Err(error);
            },
        };
        let config: Config = Config {
            private_key,
            https_rpc,
            wss_rpc,
            wss_api,
            min_out_bps,
            limit_slippage,
            liquid_fee_bps,
            gas_cost_usdc,
            profit_buffer_bps,
            hyperswap_router01,
            hyperswap_quotev2,
            prjx_quotev2,
            prjx_routerv2,
            kitten_quoter: string_or(source, "KITTEN_QUOTER", ""),
            kitten_router: string_or(source, "KITTEN_ROUTER", ""),
            dry_run,
            metrics_port: metrics_port as u16,
            metrics_host: string_or(source, "METRICS_HOST", "127.0.0.1"),
            log_dir: string_or(source, "LOG_DIR", "logs"),
            db_path: string_or(source, "DB_PATH", "data.db"),
            db_max_price_rows: db_max_price_rows as usize,
            pairs: Vec::new(),
        };
        assert(config@.pairs =~= Seq::empty());
        Ok(config)
    }

    /// Refuses settings that break a rule.
    pub fn validate_global(&self) -> (result: Result<(), ConfigError>)
        ensures
            match result {
                Ok(()) => settings_fault(self@) is None,
                Err(error) => settings_fault(self@) == Some(error@),
            },
    {
        if is_blank(self.private_key.as_str()) {
            return Err(error_at(Fault::Empty, "PRIVATE_KEY"));
        }
        match validate_bps("MIN_OUT_BPS", self.min_out_bps, false) {
            Ok(()) => {},
            Err(error) => {
                return Err(error);
            },
        }
        match validate_bps("LIMIT_SLIPPAGE", self.limit_slippage, false) {
            Ok(()) => {},
            Err(error) => {
                return Err(error);
            },
        }
        match validate_bps("LIQUID_FEE_BPS", self.liquid_fee_bps, false) {
            Ok(()) => {},
            Err(error) => {
                return Err(error);
            },
        }
        match validate_bps("PROFIT_BUFFER_BPS", self.profit_buffer_bps, false) {
            Ok(()) => {},
            Err(error) => {
                return Err(error);
            },
        }
        let gas: Double = self.gas_cost_usdc;
        if !(gas.is_finite() && Double::nought().is_at_most(gas)) {
            return Err(error_at(Fault::NotACost, "GAS_COST_USDC"));
        }
        if self.db_max_price_rows == 0 {
            return Err(error_at(Fault::Zero, "DB_MAX_PRICE_ROWS"));
        }
        match validate_address("HYPERSWAP_ROUTER01", self.hyperswap_router01.as_str()) {
            Ok(()) => {},
            Err(error) => {
                return Err(error);
            },
        }
        match validate_address("HYPERSWAP_QUOTEV2", self.hyperswap_quotev2.as_str()) {
            Ok(()) => {},
            Err(error) => {
                return Err(error);
            },
        }
        match validate_address("PRJX_QUOTEV2", self.prjx_quotev2.as_str()) {
            Ok(()) => {},
            Err(error) => {
                return Err(error);
            },
        }
        match validate_address("PRJX_ROUTERV2", self.prjx_routerv2.as_str()) {
            Ok(()) => {},
            Err(error) => {
                return Err(error);
            },
        }
        match validate_optional_address("KITTEN_QUOTER", self.kitten_quoter.as_str()) {
            Ok(()) => {},
            Err(error) => {
                return Err(error);
            },
        }
        match validate_optional_address("KITTEN_ROUTER", self.kitten_router.as_str()) {
            Ok(()) => {},
            Err(error) => {
                return Err(error);
            },
        }
        let no_quoter: bool = self.kitten_quoter.as_str().unicode_len() == 0;
        let no_router: bool = self.kitten_router.as_str().unicode_len() == 0;
        if no_quoter != no_router {
            return Err(error_at(Fault::HalfConfigured, "KITTEN_QUOTER"));
        }
        Ok(())
    }

    /// Reads and checks the whole configuration.
    pub fn try_from_source<S: ConfigSource>(source: &S) -> (result: Result<Config, ConfigError>)
        ensures
            match result {
                Ok(config) => configuration(source) == Ok::<ConfigView, crate::config::faults::ConfigFault>(config@),
                Err(error) => configuration(source) == Err::<ConfigView, crate::config::faults::ConfigFault>(error@),
            },
    {
        let mut config: Config = match Config::read_from(source) {
            Ok(config) => config,
            Err(error) => {
                return Err(error);
            },
        };
        match config.validate_global() {
            Ok(()) => {},
            Err(error) => {
                return Err(error);
            },
        }
        let list: String = match required(source, "PAIRS") {
            Ok(value) => value,
            Err(error) => {
                return Err(error);
            },
        };
        let prefixes: Vec<String> = prefixes_of(list.as_str());
        if prefixes.len() == 0 {
            return Err(error_at(Fault::NoPairs, "PAIRS"));
        }
        let pairs: Vec<PairConfig> = match pairs_of(source, &prefixes, &config) {
            Ok(pairs) => pairs,
            Err(error) => {
                return Err(error);
            },
        };
        config.pairs = pairs;
        assert(config@ =~= (ConfigView { pairs: pairs_view(pairs@), ..settings_read(source) }));
        Ok(config)
    }

    /// The configured pairs, in order.
    pub fn pairs(&self) -> (pairs: Vec<PairConfig>)
        ensures
            pairs_view(pairs@) == self@.pairs,
    {
        let mut pairs: Vec<PairConfig> = Vec::new();
        let mut i: usize = 0;
        while i < self.pairs.len()
            invariant
                i <= self.pairs@.len(),
                pairs@ == self.pairs@.take(i as int),
            decreases self.pairs@.len() - i,
        {
            pairs.push(self.pairs[i].clone());
            i = i + 1;
        }
        assert(pairs@ =~= self.pairs@);
        pairs
    }
}

/// What a list of strings says.
pub open spec fn texts(strings: Seq<String>) -> Seq<Seq<char>> {
    Seq::new(strings.len(), |i: int| strings[i]@)
}

fn prefixes_of(list: &str) -> (prefixes: Vec<String>)
    ensures
        texts(prefixes@) == prefixes_in(crate::text::split_parts(list@, ',')),
{
    let parts: Vec<String> = split(list, ',');
    let ghost all: Seq<Seq<char>> = crate::text::split_parts(list@, ',');
    let mut prefixes: Vec<String> = Vec::new();
    let mut i: usize = 0;
    assert(texts(prefixes@) =~= prefixes_in(all.take(0)));
    while i < parts.len()
        invariant
            i <= parts@.len() == all.len(),
            forall|j: int| 0 <= j < parts@.len() ==> #[trigger] parts@[j]@ == all[j],
            texts(prefixes@) == prefixes_in(all.take(i as int)),
        decreases parts@.len() - i,
    {
        let prefix: String = to_upper(trim(parts[i].as_str()));
        let ghost before: Seq<String> = prefixes@;
        proof {
            assert(all.take(i + 1).drop_last() == all.take(i as int));
            assert(all.take(i + 1).last() == all[i as int]);
        }
        if prefix.as_str().unicode_len() > 0 {
            prefixes.push(prefix);
            assert(texts(prefixes@) =~= texts(before).push(prefix@));
        }
        i = i + 1;
    }
    assert(all.take(i as int) == all);
    prefixes
}

fn has_symbol(pairs: &Vec<PairConfig>, symbol: &str) -> (taken: bool)
    ensures
        taken == symbol_taken(pairs_view(pairs@), symbol@),
{
    let mut i: usize = 0;
    while i < pairs.len()
        invariant
            i <= pairs@.len(),
            forall|j: int| 0 <= j < i ==> (#[trigger] pairs@[j]).symbol@ != symbol@,
        decreases pairs@.len() - i,
    {
        if same(pairs[i].symbol.as_str(), symbol) {
            assert(pairs_view(pairs@)[i as int].symbol == symbol@);
            return true;
        }
        i = i + 1;
    }
    proof {
        assert forall|j: int| 0 <= j < pairs_view(pairs@).len() implies (#[trigger] pairs_view(
            pairs@,
        )[j]).symbol != symbol@ by {
            assert(pairs@[j].symbol@ != symbol@);
        }
    }
    false
}

fn pairs_of<S: ConfigSource>(source: &S, prefixes: &Vec<String>, config: &Config) -> (result: Result<
    Vec<PairConfig>,
    ConfigError,
>)
    ensures
        match result {
            Ok(pairs) => pairs_under(
                source,
                texts(prefixes@),
                config.min_out_bps,
                config.limit_slippage,
            ) == Ok::<Seq<crate::config::pair::PairView>, crate::config::faults::ConfigFault>(pairs_view(pairs@)),
            Err(error) => pairs_under(
                source,
                texts(prefixes@),
                config.min_out_bps,
                config.limit_slippage,
            ) == Err::<Seq<crate::config::pair::PairView>, crate::config::faults::ConfigFault>(error@),
        },
{
    let ghost all: Seq<Seq<char>> = texts(prefixes@);
    let mut pairs: Vec<PairConfig> = Vec::new();
    let mut i: usize = 0;
    assert(pairs_view(pairs@) =~= Seq::empty());
    while i < prefixes.len()
        invariant
            i <= prefixes@.len(),
            all == texts(prefixes@),
            pairs_under(source, all.take(i as int), config.min_out_bps, config.limit_slippage)
                == Ok::<Seq<crate::config::pair::PairView>, crate::config::faults::ConfigFault>(pairs_view(pairs@)),
        decreases prefixes@.len() - i,
    {
        proof {
            assert(all.take(i + 1).drop_last() == all.take(i as int));
            assert(all.take(i + 1).last() == prefixes@[i as int]@);
        }
        let prefix: &str = prefixes[i].as_str();
        match PairConfig::try_from_source_prefix(source, prefix, config) {
            Ok(pair) => {
                if has_symbol(&pairs, pair.symbol.as_str()) {
                    let error: ConfigError = error_of(
                        Fault::DuplicateSymbol,
                        prefix,
                        pair.symbol.as_str(),
                    );
                    proof {
                        lemma_fault_stays(
                            source,
                            all,
                            i + 1,
                            config.min_out_bps,
                            config.limit_slippage,
                        );
                    }
                    return Err(error);
                }
                let ghost before: Seq<PairConfig> = pairs@;
                pairs.push(pair);
                assert(pairs_view(pairs@) =~= pairs_view(before).push(pair@));
            },
            Err(error) => {
                proof {
                    lemma_fault_stays(
                        source,
                        all,
                        i + 1,
                        config.min_out_bps,
                        config.limit_slippage,
                    );
                }
                return Err(error);
            },
        }
        i = i + 1;
    }
    assert(all.take(i as int) == all);
    Ok(pairs)
}

proof fn lemma_fault_stays<S: ConfigSource>(
    source: &S,
    prefixes: Seq<Seq<char>>,
    n: int,
    min_out_bps: Double,
    limit_slippage: Double,
)
    requires
        0 <= n <= prefixes.len(),
        pairs_under(source, prefixes.take(n), min_out_bps, limit_slippage) is Err,
    ensures
        pairs_under(source, prefixes, min_out_bps, limit_slippage) == pairs_under(
            source,
            prefixes.take(n),
            min_out_bps,
            limit_slippage,
        ),
    decreases prefixes.len(),
{
    if n < prefixes.len() {
        assert(prefixes.drop_last().take(n) == prefixes.take(n));
        lemma_fault_stays(source, prefixes.drop_last(), n, min_out_bps, limit_slippage);
    } else {
        assert(prefixes.take(n) == prefixes);
    }
}

} // verus!
