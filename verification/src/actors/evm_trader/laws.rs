//! What holds of every swap.
use vstd::prelude::*;

use crate::actors::evm_trader::run::{FreshQuotes, RunView, SwapAbortView, SwapActionView};
use crate::config::{Config, PairConfig};
use crate::double::Double;
use crate::evm::client::{Receipt, ReceiptLog};
use crate::types::commands::EvmSwapRequest;
use crate::types::market::DexName;

verus! {

/// Whether a run ends by being given up.
pub open spec fn gives_up(action: crate::actors::evm_trader::run::SwapActionView) -> bool {
    action matches crate::actors::evm_trader::run::SwapActionView::Finish(end) && end is Aborted
}

/// Whether an action sends a transaction.
pub open spec fn sends(action: crate::actors::evm_trader::run::SwapActionView) -> bool {
    action is Approve || action is Swap
}

/// What sends a transaction leaves the run in a stage from which it can no longer be given up, and
/// no other action does.
pub proof fn law_sending_is_never_forgotten(
    run: crate::actors::evm_trader::run::RunView,
    quotes: FreshQuotes,
    balance: nat,
    nonce: u64,
    allowance: nat,
)
    ensures
        run.stage is Quoting ==> {
            let (next, action) = run.after_quotes(quotes);
            !next.stage.sent() && !sends(action)
        },
        run.stage is Funding ==> {
            let (next, action) = run.after_funds(balance, nonce);
            !next.stage.sent() && !sends(action)
        },
        run.stage is Allowing ==> {
            let (next, action) = run.after_allowance(allowance);
            next.stage.sent() && sends(action)
        },
{
}

/// A swap is reported as given up only if nothing was sent: once something was, every ending is a
/// success, a success of unknown amount, or a failure.
pub proof fn law_given_up_means_nothing_was_sent(
    run: crate::actors::evm_trader::run::RunView,
    error: Seq<char>,
    succeeded: bool,
    tx_hash: Seq<char>,
    receipt: Receipt,
)
    requires
        run.stage.sent(),
    ensures
        !gives_up(run.after_error(error).1),
        run.stage is Approving ==> !gives_up(run.after_approval(succeeded, tx_hash).1),
        run.stage is Swapping ==> !gives_up(run.after_swap(receipt).1),
{
}

/// No swap goes ahead on a quote below its target, and its least output is not below the target.
pub proof fn law_swaps_keep_their_target(
    run: crate::actors::evm_trader::run::RunView,
    quotes: FreshQuotes,
)
    requires
        run.after_quotes(quotes).0.stage is Funding,
    ensures
        ({
            let best: Option<crate::actors::evm_watcher::BestQuote> =
                crate::actors::evm_watcher::best(run.candidates(quotes), true);
            let least: Double = run.after_quotes(quotes).0.stage->Funding_amount_out_min;
            &&& best is Some
            &&& run.request.target_amount.at_most(best->Some_0.value)
            &&& run.request.target_amount.at_most(least)
            &&& least.at_most(best->Some_0.value)
        }),
{
    let best: crate::actors::evm_watcher::BestQuote = crate::actors::evm_watcher::best(
        run.candidates(quotes),
        true,
    )->Some_0;
    let least: Double = run.after_quotes(quotes).0.stage->Funding_amount_out_min;
    crate::actors::evm_trader::guard::law_least_output_is_not_below_the_floor(
        best.value,
        run.request.target_amount,
        run.min_out_bps,
        least,
    );
}

/// What is sent is the whole input, to the router of the exchange that quoted best, with at least
/// the least output in the smallest units, rounded up; and the balance covers the input.
pub proof fn law_swaps_send_what_was_prepared(
    run: crate::actors::evm_trader::run::RunView,
    quotes: FreshQuotes,
    balance: nat,
    nonce: u64,
    allowance: nat,
)
    requires
        run.stage is Quoting,
        run.after_quotes(quotes).0.stage is Funding,
        run.after_quotes(quotes).0.after_funds(balance, nonce).0.stage is Allowing,
        allowance >= crate::evm::amounts::chain_amount_result(
            run.request.amount_in,
            run.decimals_in,
            false,
        )->Ok_0,
    ensures
        ({
            let input: Result<nat, crate::evm::amounts::AmountError> =
                crate::evm::amounts::chain_amount_result(
                run.request.amount_in,
                run.decimals_in,
                false,
            );
            let funding: crate::actors::evm_trader::run::RunView = run.after_quotes(quotes).0;
            let output: Result<nat, crate::evm::amounts::AmountError> =
                crate::evm::amounts::chain_amount_result(
                funding.stage->Funding_amount_out_min,
                run.decimals_out,
                true,
            );
            let action: crate::actors::evm_trader::run::SwapActionView = funding.after_funds(
                balance,
                nonce,
            ).0.after_allowance(allowance).1;
            &&& input is Ok
            &&& output is Ok
            &&& balance >= input->Ok_0
            &&& action is Swap
            &&& action->Swap_0.amount_in == input->Ok_0
            &&& action->Swap_0.amount_out_min == output->Ok_0
            &&& crate::evm::address::address_bytes(run.router_text(funding.stage->Funding_dex))
                == Some(action->Swap_0.router)
            &&& action->Swap_0.recipient == run.wallet
            &&& action->Swap_0.nonce == nonce
        }),
{
    let least: Double = run.after_quotes(quotes).0.stage->Funding_amount_out_min;
    crate::evm::amounts::law_chain_amounts_fit(run.request.amount_in, run.decimals_in, false);
    crate::evm::amounts::law_chain_amounts_fit(least, run.decimals_out, true);
    crate::evm::amounts::lemma_uint_of(
        crate::evm::amounts::chain_amount_result(
            run.request.amount_in,
            run.decimals_in,
            false,
        )->Ok_0,
    );
    crate::evm::amounts::lemma_uint_of(
        crate::evm::amounts::chain_amount_result(least, run.decimals_out, true)->Ok_0,
    );
}

/// After an approval the swap takes the next nonce, and is otherwise the one that was prepared.
pub proof fn law_approval_takes_one_nonce(
    run: crate::actors::evm_trader::run::RunView,
    allowance: nat,
    tx_hash: Seq<char>,
)
    requires
        run.stage is Allowing,
        allowance < run.stage->Allowing_amount_in_raw@,
    ensures
        ({
            let approving: crate::actors::evm_trader::run::RunView = run.after_allowance(
                allowance,
            ).0;
            let direct: crate::actors::evm_trader::run::SwapActionView = run.after_allowance(
                run.stage->Allowing_amount_in_raw@,
            ).1;
            let later: crate::actors::evm_trader::run::SwapActionView = approving.after_approval(
                true,
                tx_hash,
            ).1;
            &&& approving.stage is Approving
            &&& direct is Swap
            &&& later is Swap
            &&& later->Swap_0 == (crate::actors::evm_trader::run::SwapCallView {
                nonce: direct->Swap_0.nonce + 1,
                ..direct->Swap_0
            })
        }),
{
}

/// Buying spends token0, USDC, on token1, and selling spends token1 on token0: the token that goes
/// in, the one that comes out and their decimals are those of the pair, the right way round.
pub proof fn law_buying_spends_token0_on_token1(
    config: Config,
    pair: PairConfig,
    request: EvmSwapRequest,
    wallet: Seq<u8>,
    run: RunView,
)
    requires
        crate::actors::evm_trader::run::started(config, pair, request, wallet) == Ok::<
            RunView,
            SwapAbortView,
        >(run),
    ensures
        request.is_buy ==> {
            &&& crate::evm::address::address_bytes(pair.token0@) == Some(run.token_in)
            &&& crate::evm::address::address_bytes(pair.token1@) == Some(run.token_out)
            &&& run.decimals_in == pair.decimals0
            &&& run.decimals_out == pair.decimals1
        },
        !request.is_buy ==> {
            &&& crate::evm::address::address_bytes(pair.token1@) == Some(run.token_in)
            &&& crate::evm::address::address_bytes(pair.token0@) == Some(run.token_out)
            &&& run.decimals_in == pair.decimals1
            &&& run.decimals_out == pair.decimals0
        },
        run.stage is Quoting,
        run.request == request,
        run.wallet == wallet,
        run.symbol == pair.symbol@,
        run.fee_tier == pair.fee_tier,
        run.min_out_bps == pair.min_out_bps,
{
}

/// A buy and a sale of the same pair have their tokens and decimals exchanged, and begin or fail
/// to begin together.
pub proof fn law_buys_and_sales_are_opposite(
    config: Config,
    pair: PairConfig,
    buy: EvmSwapRequest,
    sale: EvmSwapRequest,
    wallet: Seq<u8>,
)
    requires
        buy.is_buy,
        !sale.is_buy,
    ensures
        ({
            let bought: Result<RunView, SwapAbortView> = crate::actors::evm_trader::run::started(
                config,
                pair,
                buy,
                wallet,
            );
            let sold: Result<RunView, SwapAbortView> = crate::actors::evm_trader::run::started(
                config,
                pair,
                sale,
                wallet,
            );
            &&& bought is Ok <==> sold is Ok
            &&& bought is Ok <==> crate::evm::address::address_bytes(pair.token0@) is Some
                && crate::evm::address::address_bytes(pair.token1@) is Some
            &&& bought is Ok ==> {
                &&& bought->Ok_0.token_in == sold->Ok_0.token_out
                &&& bought->Ok_0.token_out == sold->Ok_0.token_in
                &&& bought->Ok_0.decimals_in == sold->Ok_0.decimals_out
                &&& bought->Ok_0.decimals_out == sold->Ok_0.decimals_in
            }
        }),
{
}

/// A swap goes through the exchange whose own quote was the best of those enabled: HyperSwap only
/// where the pair uses it, Kitten only where the pair uses it and both its contracts are
/// configured. Its router is the one configured for that exchange.
pub proof fn law_swaps_go_where_the_quote_came_from(
    config: Config,
    pair: PairConfig,
    request: EvmSwapRequest,
    wallet: Seq<u8>,
    run: RunView,
    quotes: FreshQuotes,
)
    requires
        crate::actors::evm_trader::run::started(config, pair, request, wallet) == Ok::<
            RunView,
            SwapAbortView,
        >(run),
        run.after_quotes(quotes).0.stage is Funding,
    ensures
        ({
            let dex: DexName = run.after_quotes(quotes).0.stage->Funding_dex;
            let kitten: bool = pair.use_kitten && config.kitten_quoter@.len() > 0
                && config.kitten_router@.len() > 0;
            let quoted: Option<Double> = match dex {
                DexName::Prjx => quotes.prjx,
                DexName::HyperSwap => quotes.hyperswap,
                DexName::Kitten => quotes.kitten,
            };
            &&& dex == DexName::HyperSwap ==> pair.use_hyperswap
            &&& dex == DexName::Kitten ==> kitten
            &&& quoted is Some
            &&& quoted->Some_0.positive()
            &&& request.target_amount.at_most(quoted->Some_0)
            &&& quotes.prjx is Some && quotes.prjx->Some_0.positive() ==> quotes.prjx->Some_0.at_most(
                quoted->Some_0,
            )
            &&& pair.use_hyperswap && quotes.hyperswap is Some
                && quotes.hyperswap->Some_0.positive() ==> quotes.hyperswap->Some_0.at_most(
                quoted->Some_0,
            )
            &&& kitten && quotes.kitten is Some && quotes.kitten->Some_0.positive()
                ==> quotes.kitten->Some_0.at_most(quoted->Some_0)
            &&& run.router_text(dex) == match dex {
                DexName::Prjx => config.prjx_routerv2@,
                DexName::HyperSwap => config.hyperswap_router01@,
                DexName::Kitten => config.kitten_router@,
            }
        }),
{
    let candidates: Seq<crate::actors::evm_watcher::DexQuote> = run.candidates(quotes);
    crate::actors::evm_watcher::lemma_best_is_usable(candidates, true);
    assert(candidates.len() == 3);
    assert(candidates[0].value == quotes.prjx);
    let chosen: crate::actors::evm_watcher::BestQuote = crate::actors::evm_watcher::best(
        candidates,
        true,
    )->Some_0;
    let quote: crate::actors::evm_watcher::DexQuote = crate::actors::evm_watcher::DexQuote {
        value: Some(chosen.value),
        dex: chosen.dex,
    };
    let k: int = choose|k: int| 0 <= k < candidates.len() && candidates[k] == quote;
    assert(candidates[k] == quote);
    assert(k == 0 || k == 1 || k == 2);
    if crate::actors::evm_watcher::usable(candidates[0]) {
        crate::actors::evm_watcher::law_best_quote_is_the_best(candidates, true, 0);
    }
    if crate::actors::evm_watcher::usable(candidates[1]) {
        crate::actors::evm_watcher::law_best_quote_is_the_best(candidates, true, 1);
    }
    if crate::actors::evm_watcher::usable(candidates[2]) {
        crate::actors::evm_watcher::law_best_quote_is_the_best(candidates, true, 2);
    }
}

/// A swap is sent with what its run trades: from the wallet and to it, for the tokens of the run,
/// through the exchange that was chosen, with the fee tier of the pair where that exchange takes
/// one. Whether or not an approval comes first makes no difference to that.
pub proof fn law_swaps_carry_the_trade(
    run: RunView,
    allowance: nat,
    tx_hash: Seq<char>,
)
    requires
        run.stage is Allowing,
    ensures
        ({
            let direct: SwapActionView = run.after_allowance(allowance).1;
            let later: SwapActionView = run.after_allowance(allowance).0.after_approval(
                true,
                tx_hash,
            ).1;
            let sent: crate::actors::evm_trader::run::SwapCallView = if direct is Swap {
                direct->Swap_0
            } else {
                later->Swap_0
            };
            &&& direct is Swap <==> allowance >= run.stage->Allowing_amount_in_raw@
            &&& direct is Approve <==> allowance < run.stage->Allowing_amount_in_raw@
            &&& direct is Approve ==> direct->Approve_router == run.router && direct->Approve_nonce
                == run.stage->Allowing_nonce && later is Swap
            &&& sent.dex == run.stage->Allowing_dex
            &&& sent.router == run.router
            &&& sent.token_in == run.token_in
            &&& sent.token_out == run.token_out
            &&& sent.recipient == run.wallet
            &&& sent.amount_in == run.stage->Allowing_amount_in_raw@
            &&& sent.amount_out_min == run.stage->Allowing_amount_out_min_raw@
            &&& run.stage->Allowing_dex == DexName::Kitten ==> sent.fee_tier == 0
            &&& run.stage->Allowing_dex != DexName::Kitten ==> sent.fee_tier == run.fee_tier
        }),
{
}

/// What a run keeps from its start to its end.
pub open spec fn same_trade(a: RunView, b: RunView) -> bool {
    &&& a.request == b.request
    &&& a.symbol == b.symbol
    &&& a.token_in == b.token_in
    &&& a.token_out == b.token_out
    &&& a.decimals_in == b.decimals_in
    &&& a.decimals_out == b.decimals_out
    &&& a.fee_tier == b.fee_tier
    &&& a.wallet == b.wallet
    &&& a.min_out_bps == b.min_out_bps
    &&& a.prjx_router == b.prjx_router
    &&& a.hyperswap_router == b.hyperswap_router
    &&& a.kitten_router == b.kitten_router
}

/// Whatever a run hears, it goes on with the same trade.
pub proof fn law_runs_keep_their_trade(
    run: RunView,
    quotes: FreshQuotes,
    balance: nat,
    nonce: u64,
    allowance: nat,
    succeeded: bool,
    text: Seq<char>,
    receipt: Receipt,
)
    ensures
        same_trade(run, run.after_quotes(quotes).0),
        same_trade(run, run.after_funds(balance, nonce).0),
        same_trade(run, run.after_allowance(allowance).0),
        same_trade(run, run.after_approval(succeeded, text).0),
        same_trade(run, run.after_swap(receipt).0),
        same_trade(run, run.after_error(text).0),
{
}

/// What a swap brought is read from the first log of its receipt by which the token that comes out
/// is transferred to the wallet, in the decimals of that token. Without such a log the amount is
/// unknown, and a transaction that failed brought nothing.
pub proof fn law_receipts_tell_what_came_out(run: RunView, receipt: Receipt, i: int, amount: Double)
    requires
        0 <= i < receipt.logs@.len() ==> forall|j: int|
            0 <= j < i ==> !pays(#[trigger] receipt.logs@[j], run),
    ensures
        ({
            let end: SwapActionView = run.after_swap(receipt).1;
            &&& end is Finish
            &&& !receipt.status ==> end->Finish_0 is Failed
            &&& receipt.status && 0 <= i < receipt.logs@.len() && pays(receipt.logs@[i], run)
                && crate::evm::amounts::plain_amount(
                receipt.logs@[i].transfer->Some_0.value@,
                run.decimals_out,
            ) == Ok::<Double, crate::evm::amounts::AmountError>(amount) ==> end->Finish_0 == (
            crate::actors::evm_trader::run::SwapEndView::Brought {
                amount_out: amount,
                tx_hash: receipt.tx_hash@,
            })
            &&& receipt.status && (forall|j: int|
                0 <= j < receipt.logs@.len() ==> !pays(#[trigger] receipt.logs@[j], run))
                ==> end->Finish_0 == (
            crate::actors::evm_trader::run::SwapEndView::AmountUnknown {
                tx_hash: receipt.tx_hash@,
            })
        }),
{
    if 0 <= i < receipt.logs@.len() && pays(receipt.logs@[i], run) {
        lemma_paid_at(receipt.logs@, run, i);
    }
    if forall|j: int| 0 <= j < receipt.logs@.len() ==> !pays(#[trigger] receipt.logs@[j], run) {
        lemma_unpaid(receipt.logs@, run);
    }
}

/// Whether a log pays the token that comes out to the wallet.
pub open spec fn pays(log: ReceiptLog, run: RunView) -> bool {
    &&& log.transfer is Some
    &&& log.address@ == run.token_out
    &&& log.transfer->Some_0.to@ == run.wallet
}

proof fn lemma_paid_at(logs: Seq<ReceiptLog>, run: RunView, i: int)
    requires
        0 <= i < logs.len(),
        pays(logs[i], run),
        forall|j: int| 0 <= j < i ==> !pays(#[trigger] logs[j], run),
    ensures
        crate::evm::client::first_transfer(logs, run.token_out, run.wallet) == Some(
            logs[i].transfer->Some_0.value@,
        ),
    decreases i,
{
    if i > 0 {
        let rest: Seq<ReceiptLog> = logs.drop_first();
        assert(!pays(logs[0], run));
        assert(rest[i - 1] == logs[i]);
        assert forall|j: int| 0 <= j < i - 1 implies !pays(#[trigger] rest[j], run) by {
            assert(rest[j] == logs[j + 1]);
        }
        lemma_paid_at(rest, run, i - 1);
    }
}

proof fn lemma_unpaid(logs: Seq<ReceiptLog>, run: RunView)
    requires
        forall|j: int| 0 <= j < logs.len() ==> !pays(#[trigger] logs[j], run),
    ensures
        crate::evm::client::first_transfer(logs, run.token_out, run.wallet) is None,
    decreases logs.len(),
{
    if logs.len() > 0 {
        let rest: Seq<ReceiptLog> = logs.drop_first();
        assert(!pays(logs[0], run));
        assert forall|j: int| 0 <= j < rest.len() implies !pays(#[trigger] rest[j], run) by {
            assert(rest[j] == logs[j + 1]);
        }
        lemma_unpaid(rest, run);
    }
}

/// How a swap ended is what is reported of it: what it brought and under which transaction, that
/// the amount is unknown, that it was given up, or that it failed; and what it brought is counted
/// under the direction of its trade.
pub proof fn law_swaps_are_reported_as_they_ended(
    symbol: Seq<char>,
    request: EvmSwapRequest,
    amount_out: Double,
    tx_hash: Seq<char>,
    abort: SwapAbortView,
    reason: Seq<char>,
)
    ensures
        ({
            let brought: crate::actors::liquid_trader::AnswerView =
                crate::actors::evm_trader::swap_answer(
                symbol,
                request,
                crate::actors::evm_trader::run::SwapEndView::Brought { amount_out, tx_hash },
            );
            &&& brought.result is EvmSwapSuccess
            &&& brought.result->EvmSwapSuccess_amount_out == amount_out
            &&& brought.result->EvmSwapSuccess_tx_hash == tx_hash
            &&& brought.updates.len() == 2
            &&& brought.updates[1].metric == crate::metrics::Metric::EvmSwapAmountOutTotal
            &&& brought.updates[1].labels == seq![
                if request.is_buy {
                    "sell_diff"@
                } else {
                    "buy_diff"@
                },
                symbol,
            ]
            &&& brought.updates[1].change == crate::metrics::Change::IncrementBy(amount_out)
        }),
        crate::actors::evm_trader::swap_answer(
            symbol,
            request,
            crate::actors::evm_trader::run::SwapEndView::AmountUnknown { tx_hash },
        ).result == (crate::types::commands::TradeResultView::EvmSwapConfirmedAmountUnknown {
            tx_hash,
        }),
        crate::actors::evm_trader::swap_answer(
            symbol,
            request,
            crate::actors::evm_trader::run::SwapEndView::Aborted(abort),
        ).result is EvmSwapAborted,
        crate::actors::evm_trader::swap_answer(
            symbol,
            request,
            crate::actors::evm_trader::run::SwapEndView::Failed { reason },
        ).result == (crate::types::commands::TradeResultView::EvmSwapFailed { reason }),
{
}

/// The least output of a swap is set by the best quote, the target and the slippage of the pair,
/// and the input is the amount requested, in the smallest units; a swap goes ahead wherever there
/// is such a quote and both can be had.
pub proof fn law_quotes_decide_the_swap(
    run: RunView,
    quotes: FreshQuotes,
    best: crate::actors::evm_watcher::BestQuote,
)
    requires
        crate::actors::evm_watcher::best(run.candidates(quotes), true) == Some(best),
    ensures
        ({
            let (next, action): (RunView, SwapActionView) = run.after_quotes(quotes);
            let least: Result<Double, crate::actors::evm_trader::guard::GuardError> =
                crate::actors::evm_trader::guard::guarded_min(
                best.value,
                run.request.target_amount,
                run.min_out_bps,
            );
            let input: Result<nat, crate::evm::amounts::AmountError> =
                crate::evm::amounts::chain_amount_result(
                run.request.amount_in,
                run.decimals_in,
                false,
            );
            &&& next.stage is Funding <==> !best.value.less(run.request.target_amount) && least
                is Ok && input is Ok
            &&& next.stage is Funding ==> {
                &&& action is CheckFunds
                &&& next.stage->Funding_dex == best.dex
                &&& next.stage->Funding_amount_out_min == least->Ok_0
                &&& next.stage->Funding_amount_in_raw@ == input->Ok_0
            }
            &&& !(next.stage is Funding) ==> gives_up(action)
            &&& best.value.less(run.request.target_amount) ==> action == SwapActionView::Finish(
                crate::actors::evm_trader::run::SwapEndView::Aborted(
                    SwapAbortView::Deteriorated {
                        fresh: best.value,
                        target: run.request.target_amount,
                    },
                ),
            )
        }),
{
    if crate::evm::amounts::chain_amount_result(run.request.amount_in, run.decimals_in, false)
        is Ok {
        crate::evm::amounts::law_chain_amounts_fit(run.request.amount_in, run.decimals_in, false);
        crate::evm::amounts::lemma_uint_of(
            crate::evm::amounts::chain_amount_result(
                run.request.amount_in,
                run.decimals_in,
                false,
            )->Ok_0,
        );
    }
}

/// With no usable quote of an enabled exchange the swap is given up.
pub proof fn law_no_quote_no_swap(run: RunView, quotes: FreshQuotes)
    requires
        quotes.prjx is Some ==> !quotes.prjx->Some_0.positive(),
        run.hyperswap_enabled && quotes.hyperswap is Some ==> !quotes.hyperswap->Some_0.positive(),
        run.kitten_enabled && quotes.kitten is Some ==> !quotes.kitten->Some_0.positive(),
    ensures
        run.after_quotes(quotes).1 == SwapActionView::Finish(
            crate::actors::evm_trader::run::SwapEndView::Aborted(SwapAbortView::NoQuote),
        ),
{
    let candidates: Seq<crate::actors::evm_watcher::DexQuote> = run.candidates(quotes);
    crate::actors::evm_watcher::lemma_best_is_usable(candidates, true);
    if crate::actors::evm_watcher::best(candidates, true) is Some {
        let chosen: crate::actors::evm_watcher::BestQuote = crate::actors::evm_watcher::best(
            candidates,
            true,
        )->Some_0;
        let quote: crate::actors::evm_watcher::DexQuote = crate::actors::evm_watcher::DexQuote {
            value: Some(chosen.value),
            dex: chosen.dex,
        };
        let k: int = choose|k: int| 0 <= k < candidates.len() && candidates[k] == quote;
        assert(candidates[k] == quote);
        assert(candidates.len() == 3);
        assert(k == 0 || k == 1 || k == 2);
    }
}

/// A swap goes on to its allowance exactly where the balance covers the input, the router of the
/// exchange is an address other than zero, and the amounts can be sent; otherwise it is given up.
pub proof fn law_funds_and_router_decide_the_swap(run: RunView, balance: nat, nonce: u64)
    requires
        run.stage is Funding,
    ensures
        ({
            let (next, action): (RunView, SwapActionView) = run.after_funds(balance, nonce);
            let router: Option<Seq<u8>> = crate::evm::address::address_bytes(
                run.router_text(run.stage->Funding_dex),
            );
            let ready: bool = {
                &&& balance >= run.stage->Funding_amount_in_raw@
                &&& run.router_text(run.stage->Funding_dex).len() > 0
                &&& router is Some
                &&& !crate::evm::address::all_zero(router->Some_0)
                &&& crate::evm::amounts::chain_amount_result(
                    run.request.amount_in,
                    run.decimals_in,
                    false,
                ) is Ok
                &&& crate::evm::amounts::chain_amount_result(
                    run.stage->Funding_amount_out_min,
                    run.decimals_out,
                    true,
                ) is Ok
            };
            &&& next.stage is Allowing <==> ready
            &&& ready ==> {
                &&& action == (SwapActionView::CheckAllowance { router: router->Some_0 })
                &&& next.router == router->Some_0
                &&& next.stage->Allowing_dex == run.stage->Funding_dex
                &&& next.stage->Allowing_nonce == nonce
            }
            &&& !ready ==> gives_up(action)
        }),
{
}

/// What goes wrong once something was sent is a failure with its own reason; before that it gives
/// the swap up. An approval that did not succeed is such a failure.
pub proof fn law_faults_are_told(run: RunView, error: Seq<char>, tx_hash: Seq<char>)
    ensures
        run.stage is Approving || run.stage is Swapping ==> run.after_error(error).1
            == SwapActionView::Finish(
            crate::actors::evm_trader::run::SwapEndView::Failed { reason: error },
        ),
        run.stage is Quoting || run.stage is Funding || run.stage is Allowing ==> run.after_error(
            error,
        ).1 == SwapActionView::Finish(
            crate::actors::evm_trader::run::SwapEndView::Aborted(SwapAbortView::Query { error }),
        ),
        run.stage is Approving ==> {
            &&& run.after_approval(false, tx_hash).1 is Finish
            &&& run.after_approval(false, tx_hash).1->Finish_0 is Failed
        },
{
}

/// A least output is set exactly where quote and floor are positive, the slippage is a rate from 0
/// to below 10000, and the quote reaches the floor.
pub proof fn law_least_outputs_need_a_quote_above_the_floor(
    fresh: Double,
    floor: Double,
    rate: Double,
)
    ensures
        crate::actors::evm_trader::guard::guarded_min(fresh, floor, rate) is Ok <==> {
            &&& fresh.positive()
            &&& floor.positive()
            &&& crate::config::readers::rate_fault(Seq::empty(), rate, false) is None
            &&& floor.units() <= fresh.units()
        },
{
}

} // verus!
