//! One swap from the first quote to the receipt.
//!
//! The run asks for one thing at a time. Until an approval or a swap has been asked for, nothing
//! has been sent, and a fault gives the swap up; after that, a fault is a failure.
use std::sync::Arc;

use vstd::prelude::*;

use crate::actors::evm_trader::guard::{
    guarded_amount_out_min, select_best_executable_quote, GuardError,
};
use crate::actors::evm_watcher::{BestQuote, DexQuote};
use crate::config::{Config, PairConfig};
use crate::double::Double;
use crate::evm::address::{is_zero, parse_address};
use crate::evm::amounts::{from_bigint, to_bigint, AmountError, Uint256};
use crate::evm::client::{
    approval_needed, ensure_transaction_succeeded, raw_amounts, settle_swap_receipt, Receipt,
    SettleError, SwapRequest,
};
use crate::decimal::print::print_fixed;
use crate::text::join;
use crate::types::commands::EvmSwapRequest;
use crate::types::market::DexName;

verus! {

/// Why a swap was given up before anything was sent.
///
/// Whatever the reason, no money has moved: a balance that is too low, a missing quote, a router
/// that is not configured or a chain that could not be asked count as aborted, like a price that
/// got worse, and the pair may trade again. Only what happens after sending counts as failed.
#[derive(Debug, Clone)]
pub enum SwapAbort {
    BadToken { error: String },
    NoQuote,
    /// The fresh quote is below the target.
    Deteriorated { fresh: Double, target: Double },
    Guard(GuardError),
    Amount(AmountError),
    BalanceTooLow { symbol: String, balance: Double, needed: Double },
    RouterMissing(DexName),
    BadRouter { error: String },
    ZeroRouter(DexName),
    /// The chain could not be asked.
    Query { error: String },
}

/// What a [`SwapAbort`] says.
pub ghost enum SwapAbortView {
    BadToken { error: Seq<char> },
    NoQuote,
    Deteriorated { fresh: Double, target: Double },
    Guard(GuardError),
    Amount(AmountError),
    BalanceTooLow { symbol: Seq<char>, balance: Double, needed: Double },
    RouterMissing(DexName),
    BadRouter { error: Seq<char> },
    ZeroRouter(DexName),
    Query { error: Seq<char> },
}

impl View for SwapAbort {
    type V = SwapAbortView;

    open spec fn view(&self) -> SwapAbortView {
        match *self {
            SwapAbort::BadToken { error } => SwapAbortView::BadToken { error: error@ },
            SwapAbort::NoQuote => SwapAbortView::NoQuote,
            SwapAbort::Deteriorated { fresh, target } => SwapAbortView::Deteriorated {
                fresh,
                target,
            },
            SwapAbort::Guard(error) => SwapAbortView::Guard(error),
            SwapAbort::Amount(error) => SwapAbortView::Amount(error),
            SwapAbort::BalanceTooLow { symbol, balance, needed } => SwapAbortView::BalanceTooLow {
                symbol: symbol@,
                balance,
                needed,
            },
            SwapAbort::RouterMissing(dex) => SwapAbortView::RouterMissing(dex),
            SwapAbort::BadRouter { error } => SwapAbortView::BadRouter { error: error@ },
            SwapAbort::ZeroRouter(dex) => SwapAbortView::ZeroRouter(dex),
            SwapAbort::Query { error } => SwapAbortView::Query { error: error@ },
        }
    }
}

/// The setting that holds the router of an exchange.
pub open spec fn router_label(dex: DexName) -> Seq<char> {
    match dex {
        DexName::Prjx => "prjx_routerv2"@,
        DexName::HyperSwap => "hyperswap_router01"@,
        DexName::Kitten => "kitten_router"@,
    }
}

fn label_of_router(dex: DexName) -> (label: &'static str)
    ensures
        label@ == router_label(dex),
{
    match dex {
        DexName::Prjx => "prjx_routerv2",
        DexName::HyperSwap => "hyperswap_router01",
        DexName::Kitten => "kitten_router",
    }
}

/// How far a quote lies below its target, in basis points of the target.
pub open spec fn deterioration(fresh: Double, target: Double) -> Double {
    target.difference(fresh).quotient(target).product(Double::basis_points())
}

impl SwapAbortView {
    /// What is said of it to people.
    pub open spec fn text(self) -> Seq<char> {
        match self {
            SwapAbortView::BadToken { error } => error,
            SwapAbortView::NoQuote => "所有启用 DEX 的实时报价均失败或无效"@,
            SwapAbortView::Deteriorated { fresh, target } => "价格已恶化，放弃 swap: fresh="@
                + crate::decimal::print::fixed_text(fresh, 6) + " < target="@
                + crate::decimal::print::fixed_text(target, 6) + " (恶化 "@
                + crate::decimal::print::fixed_text(deterioration(fresh, target), 2) + "bps)"@,
            SwapAbortView::Guard(error) => error.text(),
            SwapAbortView::Amount(error) => error.text(),
            SwapAbortView::BalanceTooLow { symbol, balance, needed } => symbol + " 余额不足: 有 "@
                + crate::decimal::print::fixed_text(balance, 4) + "，需要 "@
                + crate::decimal::print::fixed_text(needed, 4) + "，跳过"@,
            SwapAbortView::RouterMissing(dex) => router_label(dex) + " 未配置，无法执行 swap"@,
            SwapAbortView::BadRouter { error } => error,
            SwapAbortView::ZeroRouter(dex) => router_label(dex) + " 解析为零地址，配置无效"@,
            SwapAbortView::Query { error } => error,
        }
    }

    /// Whether the price was the reason.
    pub open spec fn price_deteriorated(self) -> bool {
        self is Deteriorated || self == SwapAbortView::Guard(GuardError::PriceDeteriorated)
    }
}

impl SwapAbort {
    /// The message for people.
    pub fn message(&self) -> (text: String)
        ensures
            text@ == self@.text(),
    {
        match self {
            SwapAbort::BadToken { error } => error.clone(),
            SwapAbort::NoQuote => "所有启用 DEX 的实时报价均失败或无效".to_owned(),
            SwapAbort::Deteriorated { fresh, target } => {
                let worse: Double = target.minus(*fresh).over(*target).times(
                    Double::basis_points(),
                );
                let shown: String = join("价格已恶化，放弃 swap: fresh=", print_fixed(*fresh, 6).as_str());
                let aimed: String = join(
                    join(shown.as_str(), " < target=").as_str(),
                    print_fixed(*target, 6).as_str(),
                );
                let told: String = join(
                    join(aimed.as_str(), " (恶化 ").as_str(),
                    print_fixed(worse, 2).as_str(),
                );
                join(told.as_str(), "bps)")
            },
            SwapAbort::Guard(error) => error.message().to_owned(),
            SwapAbort::Amount(error) => error.message(),
            SwapAbort::BalanceTooLow { symbol, balance, needed } => {
                let shown: String = join(
                    join(symbol.as_str(), " 余额不足: 有 ").as_str(),
                    print_fixed(*balance, 4).as_str(),
                );
                let told: String = join(
                    join(shown.as_str(), "，需要 ").as_str(),
                    print_fixed(*needed, 4).as_str(),
                );
                join(told.as_str(), "，跳过")
            },
            SwapAbort::RouterMissing(dex) => join(
                label_of_router(*dex),
                " 未配置，无法执行 swap",
            ),
            SwapAbort::BadRouter { error } => error.clone(),
            SwapAbort::ZeroRouter(dex) => join(label_of_router(*dex), " 解析为零地址，配置无效"),
            SwapAbort::Query { error } => error.clone(),
        }
    }

    /// Whether the price was the reason.
    pub fn is_price_deterioration(&self) -> (result: bool)
        ensures
            result == self@.price_deteriorated(),
    {
        match self {
            SwapAbort::Deteriorated { .. } => true,
            SwapAbort::Guard(GuardError::PriceDeteriorated) => true,
            _ => false,
        }
    }
}

/// How a run ended.
#[derive(Debug, Clone)]
pub enum SwapEnd {
    Brought { amount_out: Double, tx_hash: String },
    /// It succeeded on chain, but how much came out is not known.
    AmountUnknown { tx_hash: String },
    /// It was given up before anything was sent.
    Aborted(SwapAbort),
    /// Something was sent and did not succeed, or is not known to have.
    Failed { reason: String },
}

/// What a [`SwapEnd`] says.
pub ghost enum SwapEndView {
    Brought { amount_out: Double, tx_hash: Seq<char> },
    AmountUnknown { tx_hash: Seq<char> },
    Aborted(SwapAbortView),
    Failed { reason: Seq<char> },
}

impl View for SwapEnd {
    type V = SwapEndView;

    open spec fn view(&self) -> SwapEndView {
        match *self {
            SwapEnd::Brought { amount_out, tx_hash } => SwapEndView::Brought {
                amount_out,
                tx_hash: tx_hash@,
            },
            SwapEnd::AmountUnknown { tx_hash } => SwapEndView::AmountUnknown { tx_hash: tx_hash@ },
            SwapEnd::Aborted(abort) => SwapEndView::Aborted(abort@),
            SwapEnd::Failed { reason } => SwapEndView::Failed { reason: reason@ },
        }
    }
}

/// Where a run stands.
#[derive(Debug, Clone, Copy, PartialEq, Eq, Structural)]
pub enum SwapStage {
    Quoting,
    Funding { dex: DexName, amount_out_min: Double, amount_in_raw: Uint256 },
    Allowing { dex: DexName, amount_out_min_raw: Uint256, amount_in_raw: Uint256, nonce: u64 },
    Approving { dex: DexName, amount_out_min_raw: Uint256, amount_in_raw: Uint256, nonce: u64 },
    Swapping { dex: DexName },
    Over,
}

impl SwapStage {
    /// Whether a transaction may have been sent.
    pub open spec fn sent(self) -> bool {
        self is Approving || self is Swapping
    }
}

/// A swap as it is sent.
#[derive(Debug, Clone)]
pub struct SwapCall {
    pub dex: DexName,
    pub router: Vec<u8>,
    pub token_in: Vec<u8>,
    pub token_out: Vec<u8>,
    /// The fee tier of the pool; zero where the router takes none.
    pub fee_tier: u32,
    pub recipient: Vec<u8>,
    pub amount_in: Uint256,
    pub amount_out_min: Uint256,
    pub nonce: u64,
}

/// What a [`SwapCall`] says.
#[verifier::ext_equal]
pub ghost struct SwapCallView {
    pub dex: DexName,
    pub router: Seq<u8>,
    pub token_in: Seq<u8>,
    pub token_out: Seq<u8>,
    pub fee_tier: u32,
    pub recipient: Seq<u8>,
    pub amount_in: nat,
    pub amount_out_min: nat,
    pub nonce: nat,
}

impl View for SwapCall {
    type V = SwapCallView;

    open spec fn view(&self) -> SwapCallView {
        SwapCallView {
            dex: self.dex,
            router: self.router@,
            token_in: self.token_in@,
            token_out: self.token_out@,
            fee_tier: self.fee_tier,
            recipient: self.recipient@,
            amount_in: self.amount_in@,
            amount_out_min: self.amount_out_min@,
            nonce: self.nonce as nat,
        }
    }
}

/// What a run asks for.
#[derive(Debug, Clone)]
pub enum SwapAction {
    /// Quote the input on every enabled exchange.
    Quote,
    /// Ask for the balance of the input token and the pending nonce.
    CheckFunds,
    /// Ask how much the router may take.
    CheckAllowance { router: Vec<u8> },
    /// Allow the router to take any amount.
    Approve { router: Vec<u8>, nonce: u64 },
    /// Send the swap.
    Swap(SwapCall),
    Finish(SwapEnd),
}

/// What a [`SwapAction`] asks for.
pub ghost enum SwapActionView {
    Quote,
    CheckFunds,
    CheckAllowance { router: Seq<u8> },
    Approve { router: Seq<u8>, nonce: nat },
    Swap(SwapCallView),
    Finish(SwapEndView),
}

impl View for SwapAction {
    type V = SwapActionView;

    open spec fn view(&self) -> SwapActionView {
        match *self {
            SwapAction::Quote => SwapActionView::Quote,
            SwapAction::CheckFunds => SwapActionView::CheckFunds,
            SwapAction::CheckAllowance { router } => SwapActionView::CheckAllowance {
                router: router@,
            },
            SwapAction::Approve { router, nonce } => SwapActionView::Approve {
                router: router@,
                nonce: nonce as nat,
            },
            SwapAction::Swap(call) => SwapActionView::Swap(call@),
            SwapAction::Finish(end) => SwapActionView::Finish(end@),
        }
    }
}

/// The fresh quotes for the input of a swap.
#[derive(Debug, Clone, Copy, PartialEq, Eq, Structural)]
pub struct FreshQuotes {
    pub prjx: Option<Double>,
    pub hyperswap: Option<Double>,
    pub kitten: Option<Double>,
}

/// A balance as it is shown: zero where it is too large to convert.
pub open spec fn shown_balance(balance: nat, decimals: u8) -> Double {
    match crate::evm::amounts::plain_amount(balance, decimals) {
        Ok(amount) => amount,
        Err(_) => Double::nought(),
    }
}

/// The state of a run.
#[verifier::ext_equal]
pub ghost struct RunView {
    pub request: EvmSwapRequest,
    pub symbol: Seq<char>,
    pub min_out_bps: Double,
    pub hyperswap_enabled: bool,
    pub kitten_enabled: bool,
    pub token_in: Seq<u8>,
    pub token_out: Seq<u8>,
    pub decimals_in: u8,
    pub decimals_out: u8,
    pub fee_tier: u32,
    pub prjx_router: Seq<char>,
    pub hyperswap_router: Seq<char>,
    pub kitten_router: Seq<char>,
    pub wallet: Seq<u8>,
    pub router: Seq<u8>,
    pub stage: SwapStage,
}

impl RunView {
    /// The run ends.
    pub open spec fn ending(self, end: SwapEndView) -> (RunView, SwapActionView) {
        (RunView { stage: SwapStage::Over, ..self }, SwapActionView::Finish(end))
    }

    /// The run given up, for a reason.
    pub open spec fn aborting(self, abort: SwapAbortView) -> (RunView, SwapActionView) {
        self.ending(SwapEndView::Aborted(abort))
    }

    /// The quotes that count: those of exchanges that are enabled.
    pub open spec fn candidates(self, quotes: FreshQuotes) -> Seq<DexQuote> {
        seq![
            DexQuote { value: quotes.prjx, dex: DexName::Prjx },
            DexQuote {
                value: if self.hyperswap_enabled {
                    quotes.hyperswap
                } else {
                    None
                },
                dex: DexName::HyperSwap,
            },
            DexQuote {
                value: if self.kitten_enabled {
                    quotes.kitten
                } else {
                    None
                },
                dex: DexName::Kitten,
            },
        ]
    }

    /// The quotes have come: the best must reach the target, and sets the least output.
    pub open spec fn after_quotes(self, quotes: FreshQuotes) -> (RunView, SwapActionView) {
        match crate::actors::evm_watcher::best(self.candidates(quotes), true) {
            None => self.aborting(SwapAbortView::NoQuote),
            Some(quote) => if quote.value.less(self.request.target_amount) {
                self.aborting(
                    SwapAbortView::Deteriorated {
                        fresh: quote.value,
                        target: self.request.target_amount,
                    },
                )
            } else {
                match crate::actors::evm_trader::guard::guarded_min(
                    quote.value,
                    self.request.target_amount,
                    self.min_out_bps,
                ) {
                    Err(error) => self.aborting(SwapAbortView::Guard(error)),
                    Ok(amount_out_min) => match crate::evm::amounts::chain_amount_result(
                        self.request.amount_in,
                        self.decimals_in,
                        false,
                    ) {
                        Err(error) => self.aborting(SwapAbortView::Amount(error)),
                        Ok(raw) => (
                            RunView {
                                stage: SwapStage::Funding {
                                    dex: quote.dex,
                                    amount_out_min,
                                    amount_in_raw: crate::evm::amounts::as_uint(raw),
                                },
                                ..self
                            },
                            SwapActionView::CheckFunds,
                        ),
                    },
                }
            },
        }
    }

    /// The configured router of an exchange.
    pub open spec fn router_text(self, dex: DexName) -> Seq<char> {
        match dex {
            DexName::Prjx => self.prjx_router,
            DexName::HyperSwap => self.hyperswap_router,
            DexName::Kitten => self.kitten_router,
        }
    }

    /// The balance and the nonce have come: the balance must cover the input, and the router must
    /// be configured.
    pub open spec fn after_funds(self, balance: nat, nonce: u64) -> (RunView, SwapActionView) {
        match self.stage {
            SwapStage::Funding { dex, amount_out_min, amount_in_raw } => {
                let text: Seq<char> = self.router_text(dex);
                if balance < amount_in_raw@ {
                    self.aborting(
                        SwapAbortView::BalanceTooLow {
                            symbol: self.symbol,
                            balance: shown_balance(balance, self.decimals_in),
                            needed: self.request.amount_in,
                        },
                    )
                } else if text.len() == 0 {
                    self.aborting(SwapAbortView::RouterMissing(dex))
                } else {
                    match crate::evm::address::address_bytes(text) {
                        None => self.aborting(
                            SwapAbortView::BadRouter {
                                error: crate::evm::address::address_error(text),
                            },
                        ),
                        Some(router) => if crate::evm::address::all_zero(router) {
                            self.aborting(SwapAbortView::ZeroRouter(dex))
                        } else {
                            match (
                                crate::evm::amounts::chain_amount_result(
                                    self.request.amount_in,
                                    self.decimals_in,
                                    false,
                                ),
                                crate::evm::amounts::chain_amount_result(
                                    amount_out_min,
                                    self.decimals_out,
                                    true,
                                ),
                            ) {
                                (Err(error), _) => self.aborting(SwapAbortView::Amount(error)),
                                (Ok(_), Err(error)) => self.aborting(SwapAbortView::Amount(error)),
                                (Ok(raw), Ok(least)) => (
                                    RunView {
                                        router,
                                        stage: SwapStage::Allowing {
                                            dex,
                                            amount_out_min_raw: crate::evm::amounts::as_uint(least),
                                            amount_in_raw: crate::evm::amounts::as_uint(raw),
                                            nonce,
                                        },
                                        ..self
                                    },
                                    SwapActionView::CheckAllowance { router },
                                ),
                            }
                        },
                    }
                }
            },
            _ => (self, SwapActionView::Quote),
        }
    }

    /// The swap as it is sent.
    pub open spec fn call(
        self,
        dex: DexName,
        amount_in: nat,
        amount_out_min: nat,
        nonce: nat,
    ) -> SwapCallView {
        SwapCallView {
            dex,
            router: self.router,
            token_in: self.token_in,
            token_out: self.token_out,
            fee_tier: if dex == DexName::Kitten {
                0
            } else {
                self.fee_tier
            },
            recipient: self.wallet,
            amount_in,
            amount_out_min,
            nonce,
        }
    }

    /// The allowance has come: where it covers the input the swap is sent, else an approval.
    pub open spec fn after_allowance(self, allowance: nat) -> (RunView, SwapActionView) {
        match self.stage {
            SwapStage::Allowing { dex, amount_out_min_raw, amount_in_raw, nonce } => if allowance
                < amount_in_raw@ {
                (
                    RunView {
                        stage: SwapStage::Approving {
                            dex,
                            amount_out_min_raw,
                            amount_in_raw,
                            nonce,
                        },
                        ..self
                    },
                    SwapActionView::Approve { router: self.router, nonce: nonce as nat },
                )
            } else {
                (
                    RunView { stage: SwapStage::Swapping { dex }, ..self },
                    SwapActionView::Swap(
                        self.call(dex, amount_in_raw@, amount_out_min_raw@, nonce as nat),
                    ),
                )
            },
            _ => (self, SwapActionView::Quote),
        }
    }

    /// The approval has been included: if it succeeded, the swap is sent with the next nonce.
    pub open spec fn after_approval(self, succeeded: bool, tx_hash: Seq<char>) -> (
        RunView,
        SwapActionView,
    ) {
        match self.stage {
            SwapStage::Approving { dex, amount_out_min_raw, amount_in_raw, nonce } => if succeeded {
                (
                    RunView { stage: SwapStage::Swapping { dex }, ..self },
                    SwapActionView::Swap(
                        self.call(dex, amount_in_raw@, amount_out_min_raw@, nonce as nat + 1),
                    ),
                )
            } else {
                self.ending(
                    SwapEndView::Failed { reason: "approve"@ + " tx 回滚: "@ + tx_hash },
                )
            },
            _ => (self, SwapActionView::Quote),
        }
    }

    /// The swap has been included.
    pub open spec fn after_swap(self, receipt: Receipt) -> (RunView, SwapActionView) {
        let end: SwapEndView = match crate::evm::client::settled(
            receipt,
            self.token_out,
            self.wallet,
            self.decimals_out,
        ) {
            crate::evm::client::Settled::Brought(amount_out) => SwapEndView::Brought {
                amount_out,
                tx_hash: receipt.tx_hash@,
            },
            crate::evm::client::Settled::Reverted => SwapEndView::Failed {
                reason: if self.stage == (SwapStage::Swapping { dex: DexName::Kitten }) {
                    "kitten "@ + ("swap"@ + " tx 回滚: "@ + receipt.tx_hash@)
                } else {
                    "swap"@ + " tx 回滚: "@ + receipt.tx_hash@
                },
            },
            crate::evm::client::Settled::TransferMissing => SwapEndView::AmountUnknown {
                tx_hash: receipt.tx_hash@,
            },
            crate::evm::client::Settled::Amount(error) => SwapEndView::Failed {
                reason: error.text(),
            },
        };
        self.ending(end)
    }

    /// What was asked for could not be done.
    pub open spec fn after_error(self, error: Seq<char>) -> (RunView, SwapActionView) {
        if self.stage.sent() {
            self.ending(SwapEndView::Failed { reason: error })
        } else {
            self.aborting(SwapAbortView::Query { error })
        }
    }
}

/// One swap in progress.
pub struct SwapRun {
    config: Arc<Config>,
    pair: Arc<PairConfig>,
    request: EvmSwapRequest,
    token_in: Vec<u8>,
    token_out: Vec<u8>,
    wallet: Vec<u8>,
    router: Vec<u8>,
    stage: SwapStage,
}

/// Which token goes in.
pub open spec fn token_in_text(pair: PairConfig, is_buy: bool) -> Seq<char> {
    if is_buy {
        pair.token0@
    } else {
        pair.token1@
    }
}

/// Which token comes out.
pub open spec fn token_out_text(pair: PairConfig, is_buy: bool) -> Seq<char> {
    if is_buy {
        pair.token1@
    } else {
        pair.token0@
    }
}

/// The run that a request begins, or why it does not begin.
pub open spec fn started(
    config: Config,
    pair: PairConfig,
    request: EvmSwapRequest,
    wallet: Seq<u8>,
) -> Result<RunView, SwapAbortView> {
    let text_in: Seq<char> = token_in_text(pair, request.is_buy);
    let text_out: Seq<char> = token_out_text(pair, request.is_buy);
    match (
        crate::evm::address::address_bytes(text_in),
        crate::evm::address::address_bytes(text_out),
    ) {
        (Some(token_in), Some(token_out)) => Ok(
            RunView {
                request,
                symbol: pair.symbol@,
                min_out_bps: pair.min_out_bps,
                hyperswap_enabled: pair.use_hyperswap,
                kitten_enabled: pair.use_kitten && config.kitten_quoter@.len() > 0
                    && config.kitten_router@.len() > 0,
                token_in,
                token_out,
                decimals_in: if request.is_buy {
                    pair.decimals0
                } else {
                    pair.decimals1
                },
                decimals_out: if request.is_buy {
                    pair.decimals1
                } else {
                    pair.decimals0
                },
                fee_tier: pair.fee_tier,
                prjx_router: config.prjx_routerv2@,
                hyperswap_router: config.hyperswap_router01@,
                kitten_router: config.kitten_router@,
                wallet,
                router: Seq::empty(),
                stage: SwapStage::Quoting,
            },
        ),
        (None, _) => Err(
            SwapAbortView::BadToken { error: crate::evm::address::address_error(text_in) },
        ),
        (Some(_), None) => Err(
            SwapAbortView::BadToken { error: crate::evm::address::address_error(text_out) },
        ),
    }
}

impl View for SwapRun {
    type V = RunView;

    closed spec fn view(&self) -> RunView {
        RunView {
            request: self.request,
            symbol: self.pair.symbol@,
            min_out_bps: self.pair.min_out_bps,
            hyperswap_enabled: self.pair.use_hyperswap,
            kitten_enabled: self.pair.use_kitten && self.config.kitten_quoter@.len() > 0
                && self.config.kitten_router@.len() > 0,
            token_in: self.token_in@,
            token_out: self.token_out@,
            decimals_in: if self.request.is_buy {
                self.pair.decimals0
            } else {
                self.pair.decimals1
            },
            decimals_out: if self.request.is_buy {
                self.pair.decimals1
            } else {
                self.pair.decimals0
            },
            fee_tier: self.pair.fee_tier,
            prjx_router: self.config.prjx_routerv2@,
            hyperswap_router: self.config.hyperswap_router01@,
            kitten_router: self.config.kitten_router@,
            wallet: self.wallet@,
            router: self.router@,
            stage: self.stage,
        }
    }
}

fn copy_bytes(bytes: &Vec<u8>) -> (copy: Vec<u8>)
    ensures
        copy@ == bytes@,
{
    let mut copy: Vec<u8> = Vec::new();
    let mut i: usize = 0;
    while i < bytes.len()
        invariant
            i <= bytes@.len(),
            copy@ == bytes@.take(i as int),
        decreases bytes@.len() - i,
    {
        copy.push(bytes[i]);
        i = i + 1;
    }
    assert(copy@ =~= bytes@);
    copy
}

impl SwapRun {
    /// Begins a swap. The first thing it asks for is fresh quotes.
    pub fn start(
        config: Arc<Config>,
        pair: Arc<PairConfig>,
        request: EvmSwapRequest,
        wallet: Vec<u8>,
    ) -> (result: Result<SwapRun, SwapAbort>)
        ensures
            match (
                crate::evm::address::address_bytes(token_in_text(*pair, request.is_buy)),
                crate::evm::address::address_bytes(token_out_text(*pair, request.is_buy)),
            ) {
                (Some(token_in), Some(token_out)) => result matches Ok(run) && run@ == (RunView {
                    request,
                    symbol: pair.symbol@,
                    min_out_bps: pair.min_out_bps,
                    hyperswap_enabled: pair.use_hyperswap,
                    kitten_enabled: pair.use_kitten && config.kitten_quoter@.len() > 0
                        && config.kitten_router@.len() > 0,
                    token_in,
                    token_out,
                    decimals_in: if request.is_buy {
                        pair.decimals0
                    } else {
                        pair.decimals1
                    },
                    decimals_out: if request.is_buy {
                        pair.decimals1
                    } else {
                        pair.decimals0
                    },
                    fee_tier: pair.fee_tier,
                    prjx_router: config.prjx_routerv2@,
                    hyperswap_router: config.hyperswap_router01@,
                    kitten_router: config.kitten_router@,
                    wallet: wallet@,
                    router: Seq::empty(),
                    stage: SwapStage::Quoting,
                }),
                (None, _) => result matches Err(abort) && abort@ == (SwapAbortView::BadToken {
                    error: crate::evm::address::address_error(
                        token_in_text(*pair, request.is_buy),
                    ),
                }),
                (Some(_), None) => result matches Err(abort) && abort@ == (SwapAbortView::BadToken {
                    error: crate::evm::address::address_error(
                        token_out_text(*pair, request.is_buy),
                    ),
                }),
            },
            match result {
                Ok(run) => started(*config, *pair, request, wallet@) == Ok::<
                    RunView,
                    SwapAbortView,
                >(run@),
                Err(abort) => started(*config, *pair, request, wallet@) == Err::<
                    RunView,
                    SwapAbortView,
                >(abort@),
            },
    {
        let (text_in, text_out): (&str, &str) = if request.is_buy {
            (pair.token0.as_str(), pair.token1.as_str())
        } else {
            (pair.token1.as_str(), pair.token0.as_str())
        };
        let token_in: Vec<u8> = match parse_address(text_in) {
            Ok(token) => token,
            Err(error) => {
                return Err(SwapAbort::BadToken { error });
            },
        };
        let token_out: Vec<u8> = match parse_address(text_out) {
            Ok(token) => token,
            Err(error) => {
                return Err(SwapAbort::BadToken { error });
            },
        };
        let run: SwapRun = SwapRun {
            config,
            pair,
            request,
            token_in,
            token_out,
            wallet,
            router: Vec::new(),
            stage: SwapStage::Quoting,
        };
        assert(run@.router =~= Seq::empty());
        Ok(run)
    }

    /// Where the run stands.
    pub fn stage(&self) -> (stage: SwapStage)
        ensures
            stage == self@.stage,
    {
        self.stage
    }

    /// The token that goes in.
    pub fn token_in(&self) -> (token: &Vec<u8>)
        ensures
            token@ == self@.token_in,
    {
        &self.token_in
    }

    /// The token that comes out.
    pub fn token_out(&self) -> (token: &Vec<u8>)
        ensures
            token@ == self@.token_out,
    {
        &self.token_out
    }

    /// The decimals of the token that goes in.
    pub fn decimals_in(&self) -> (decimals: u8)
        ensures
            decimals == self@.decimals_in,
    {
        if self.request.is_buy {
            self.pair.decimals0
        } else {
            self.pair.decimals1
        }
    }

    /// The decimals of the token that comes out.
    pub fn decimals_out(&self) -> (decimals: u8)
        ensures
            decimals == self@.decimals_out,
    {
        if self.request.is_buy {
            self.pair.decimals1
        } else {
            self.pair.decimals0
        }
    }

    /// The fee tier of the pools of the pair.
    pub fn fee_tier(&self) -> (tier: u32)
        ensures
            tier == self@.fee_tier,
    {
        self.pair.fee_tier
    }

    /// How much goes in.
    pub fn amount_in(&self) -> (amount: Double)
        ensures
            amount == self@.request.amount_in,
    {
        self.request.amount_in
    }

    fn end(&mut self, end: SwapEnd) -> (action: SwapAction)
        ensures
            (final(self)@, action@) == old(self)@.ending(end@),
    {
        self.stage = SwapStage::Over;
        SwapAction::Finish(end)
    }

    fn abort(&mut self, abort: SwapAbort) -> (action: SwapAction)
        ensures
            (final(self)@, action@) == old(self)@.aborting(abort@),
    {
        self.end(SwapEnd::Aborted(abort))
    }

    fn fresh_candidates(&self, quotes: &FreshQuotes) -> (candidates: Vec<DexQuote>)
        ensures
            candidates@ == self@.candidates(*quotes),
    {
        let kitten_ready: bool = self.config.kitten_quoter.as_str().unicode_len() > 0
            && self.config.kitten_router.as_str().unicode_len() > 0;
        let mut candidates: Vec<DexQuote> = Vec::new();
        candidates.push(DexQuote { value: quotes.prjx, dex: DexName::Prjx });
        candidates.push(
            DexQuote {
                value: if self.pair.use_hyperswap {
                    quotes.hyperswap
                } else {
                    None
                },
                dex: DexName::HyperSwap,
            },
        );
        candidates.push(
            DexQuote {
                value: if self.pair.use_kitten && kitten_ready {
                    quotes.kitten
                } else {
                    None
                },
                dex: DexName::Kitten,
            },
        );
        assert(candidates@ =~= self@.candidates(*quotes));
        candidates
    }

    /// The quotes have come.
    pub fn quoted(&mut self, quotes: &FreshQuotes) -> (action: SwapAction)
        requires
            old(self)@.stage is Quoting,
        ensures
            (final(self)@, action@) == old(self)@.after_quotes(*quotes),
    {
        let candidates: Vec<DexQuote> = self.fresh_candidates(quotes);
        let quote: BestQuote = match select_best_executable_quote(&candidates) {
            Ok(quote) => quote,
            Err(_) => {
                return self.abort(SwapAbort::NoQuote);
            },
        };
        let target: Double = self.request.target_amount;
        if quote.value.is_less(target) {
            return self.abort(SwapAbort::Deteriorated { fresh: quote.value, target });
        }
        let amount_out_min: Double = match guarded_amount_out_min(
            quote.value,
            target,
            self.pair.min_out_bps,
        ) {
            Ok(amount) => amount,
            Err(error) => {
                return self.abort(SwapAbort::Guard(error));
            },
        };
        match to_bigint(self.request.amount_in, self.decimals_in()) {
            Ok(amount_in_raw) => {
                proof {
                    crate::evm::amounts::lemma_as_uint(amount_in_raw);
                }
                self.stage = SwapStage::Funding { dex: quote.dex, amount_out_min, amount_in_raw };
                SwapAction::CheckFunds
            },
            Err(error) => self.abort(SwapAbort::Amount(error)),
        }
    }

    /// The balance and the nonce have come.
    pub fn funded(&mut self, balance: &Uint256, nonce: u64) -> (action: SwapAction)
        requires
            old(self)@.stage is Funding,
        ensures
            (final(self)@, action@) == old(self)@.after_funds(balance@, nonce),
    {
        let (dex, amount_out_min, amount_in_raw): (DexName, Double, Uint256) = match self.stage {
            SwapStage::Funding { dex, amount_out_min, amount_in_raw } => (
                dex,
                amount_out_min,
                amount_in_raw,
            ),
            _ => {
                return SwapAction::Quote;
            },
        };
        if balance.is_less(&amount_in_raw) {
            let symbol: String = self.pair.symbol.clone();
            let shown: Double = match from_bigint(*balance, self.decimals_in()) {
                Ok(amount) => amount,
                Err(_) => Double::nought(),
            };
            let needed: Double = self.request.amount_in;
            return self.abort(SwapAbort::BalanceTooLow { symbol, balance: shown, needed });
        }
        let text: &str = match dex {
            DexName::Prjx => self.config.prjx_routerv2.as_str(),
            DexName::HyperSwap => self.config.hyperswap_router01.as_str(),
            DexName::Kitten => self.config.kitten_router.as_str(),
        };
        if text.unicode_len() == 0 {
            return self.abort(SwapAbort::RouterMissing(dex));
        }
        let parsed: Result<Vec<u8>, String> = parse_address(text);
        let router: Vec<u8> = match parsed {
            Ok(router) => router,
            Err(error) => {
                return self.abort(SwapAbort::BadRouter { error });
            },
        };
        if is_zero(&router) {
            return self.abort(SwapAbort::ZeroRouter(dex));
        }
        let request: SwapRequest = SwapRequest {
            router: copy_bytes(&router),
            token_in: copy_bytes(&self.token_in),
            decimals_in: self.decimals_in(),
            token_out: copy_bytes(&self.token_out),
            decimals_out: self.decimals_out(),
            fee_tier: match dex {
                DexName::Kitten => 0,
                _ => self.pair.fee_tier,
            },
            recipient: copy_bytes(&self.wallet),
            amount_in: self.request.amount_in,
            amount_out_min,
        };
        match raw_amounts(&request) {
            Ok((amount_in_raw, amount_out_min_raw)) => {
                proof {
                    crate::evm::amounts::lemma_as_uint(amount_in_raw);
                    crate::evm::amounts::lemma_as_uint(amount_out_min_raw);
                }
                self.router = copy_bytes(&router);
                self.stage = SwapStage::Allowing { dex, amount_out_min_raw, amount_in_raw, nonce };
                SwapAction::CheckAllowance { router }
            },
            Err(error) => self.abort(SwapAbort::Amount(error)),
        }
    }

    fn call(&self, dex: DexName, amount_in: Uint256, amount_out_min: Uint256, nonce: u64) -> (call:
        SwapCall)
        ensures
            call@ == self@.call(dex, amount_in@, amount_out_min@, nonce as nat),
    {
        SwapCall {
            dex,
            router: copy_bytes(&self.router),
            token_in: copy_bytes(&self.token_in),
            token_out: copy_bytes(&self.token_out),
            fee_tier: match dex {
                DexName::Kitten => 0,
                _ => self.pair.fee_tier,
            },
            recipient: copy_bytes(&self.wallet),
            amount_in,
            amount_out_min,
            nonce,
        }
    }

    /// The allowance has come.
    pub fn allowed(&mut self, allowance: &Uint256) -> (action: SwapAction)
        requires
            old(self)@.stage is Allowing,
        ensures
            (final(self)@, action@) == old(self)@.after_allowance(allowance@),
    {
        match self.stage {
            SwapStage::Allowing { dex, amount_out_min_raw, amount_in_raw, nonce } => {
                if approval_needed(allowance, &amount_in_raw) {
                    self.stage = SwapStage::Approving {
                        dex,
                        amount_out_min_raw,
                        amount_in_raw,
                        nonce,
                    };
                    SwapAction::Approve { router: copy_bytes(&self.router), nonce }
                } else {
                    let call: SwapCall = self.call(dex, amount_in_raw, amount_out_min_raw, nonce);
                    self.stage = SwapStage::Swapping { dex };
                    SwapAction::Swap(call)
                }
            },
            _ => SwapAction::Quote,
        }
    }

    /// The approval has been included.
    pub fn approved(&mut self, succeeded: bool, tx_hash: &str) -> (action: SwapAction)
        requires
            old(self)@.stage is Approving,
            old(self)@.stage->Approving_nonce < u64::MAX,
        ensures
            (final(self)@, action@) == old(self)@.after_approval(succeeded, tx_hash@),
    {
        match self.stage {
            SwapStage::Approving { dex, amount_out_min_raw, amount_in_raw, nonce } => {
                match ensure_transaction_succeeded(succeeded, tx_hash, "approve") {
                    Ok(()) => {
                        let call: SwapCall = self.call(
                            dex,
                            amount_in_raw,
                            amount_out_min_raw,
                            nonce + 1,
                        );
                        self.stage = SwapStage::Swapping { dex };
                        SwapAction::Swap(call)
                    },
                    Err(error) => self.end(SwapEnd::Failed { reason: error.message() }),
                }
            },
            _ => SwapAction::Quote,
        }
    }

    /// The swap has been included.
    pub fn swapped(&mut self, receipt: &Receipt) -> (action: SwapAction)
        requires
            old(self)@.stage is Swapping,
        ensures
            (final(self)@, action@) == old(self)@.after_swap(*receipt),
    {
        let decimals_out: u8 = self.decimals_out();
        let end: SwapEnd = match settle_swap_receipt(
            receipt,
            &self.token_out,
            &self.wallet,
            decimals_out,
        ) {
            Ok(outcome) => SwapEnd::Brought {
                amount_out: outcome.amount_out,
                tx_hash: outcome.tx_hash,
            },
            Err(SettleError::Reverted(error)) => SwapEnd::Failed {
                reason: match self.stage {
                    SwapStage::Swapping { dex: DexName::Kitten } => join(
                        "kitten ",
                        error.message().as_str(),
                    ),
                    _ => error.message(),
                },
            },
            Err(SettleError::TransferMissing(error)) => SwapEnd::AmountUnknown {
                tx_hash: error.tx_hash,
            },
            Err(SettleError::Amount(error)) => SwapEnd::Failed {
                reason: error.message(),
            },
        };
        self.end(end)
    }

    /// What was asked for could not be done.
    pub fn failed(&mut self, error: &str) -> (action: SwapAction)
        ensures
            (final(self)@, action@) == old(self)@.after_error(error@),
    {
        let sent: bool = match self.stage {
            SwapStage::Approving { .. } => true,
            SwapStage::Swapping { .. } => true,
            _ => false,
        };
        if sent {
            self.end(SwapEnd::Failed { reason: error.to_owned() })
        } else {
            self.abort(SwapAbort::Query { error: error.to_owned() })
        }
    }
}

} // verus!
