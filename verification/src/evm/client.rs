//! Swaps on chain: what is sent and how the receipt is read.
use vstd::prelude::*;

use crate::double::Double;
use crate::evm::address::same_bytes;
use crate::evm::amounts::{from_bigint, to_bigint, to_bigint_ceil, AmountError, Uint256};
use crate::text::join;

verus! {

/// How long a swap may wait to be included, in seconds.
pub const SWAP_DEADLINE_SECS: u64 = 60;

/// A swap of an exact input.
#[derive(Debug, Clone)]
pub struct SwapRequest {
    pub router: Vec<u8>,
    pub token_in: Vec<u8>,
    pub decimals_in: u8,
    pub token_out: Vec<u8>,
    pub decimals_out: u8,
    /// The fee tier of the pool; zero where the router takes none.
    pub fee_tier: u32,
    pub recipient: Vec<u8>,
    pub amount_in: Double,
    pub amount_out_min: Double,
}

/// What a swap brought.
#[derive(Debug, Clone)]
pub struct SwapOutcome {
    pub amount_out: Double,
    pub tx_hash: String,
}

/// The swap succeeded on chain, but no transfer to the recipient was found: the funds have moved,
/// and how much came out is not known.
#[derive(Debug, Clone)]
pub struct TransferEventMissing {
    pub tx_hash: String,
}

impl TransferEventMissing {
    /// The message for people.
    pub fn message(&self) -> (text: String)
        ensures
            text@ == "transfer_event_missing:"@ + self.tx_hash@,
    {
        join("transfer_event_missing:", self.tx_hash.as_str())
    }
}

/// A transfer of tokens that a log tells of.
#[derive(Debug, Clone)]
pub struct Transfer {
    pub to: Vec<u8>,
    pub value: Uint256,
}

/// A log of a receipt: the contract that wrote it, and the transfer it tells of, if it does.
#[derive(Debug, Clone)]
pub struct ReceiptLog {
    pub address: Vec<u8>,
    pub transfer: Option<Transfer>,
}

/// The receipt of a transaction.
#[derive(Debug, Clone)]
pub struct Receipt {
    pub status: bool,
    pub tx_hash: String,
    pub logs: Vec<ReceiptLog>,
}

/// A transaction that was included but reverted.
#[derive(Debug, Clone)]
pub struct Reverted {
    pub action: String,
    pub tx_hash: String,
}

impl Reverted {
    /// The message for people.
    pub fn message(&self) -> (text: String)
        ensures
            text@ == self.action@ + " tx 回滚: "@ + self.tx_hash@,
    {
        join(join(self.action.as_str(), " tx 回滚: ").as_str(), self.tx_hash.as_str())
    }
}

/// Until when a swap sent now may be included, in Unix seconds.
pub fn swap_deadline(now: u64) -> (deadline: u64)
    requires
        now <= u64::MAX - SWAP_DEADLINE_SECS,
    ensures
        deadline == now + SWAP_DEADLINE_SECS,
{
    now + SWAP_DEADLINE_SECS
}

/// A receipt may tell of a transaction that reverted: every transaction that moves funds is
/// checked here.
pub fn ensure_transaction_succeeded(status: bool, tx_hash: &str, action: &str) -> (result: Result<
    (),
    Reverted,
>)
    ensures
        match result {
            Ok(()) => status,
            Err(error) => !status && error.tx_hash@ == tx_hash@ && error.action@ == action@,
        },
{
    if status {
        Ok(())
    } else {
        Err(Reverted { action: action.to_owned(), tx_hash: tx_hash.to_owned() })
    }
}

/// Whether a router may not yet take an amount and must be approved first.
pub fn approval_needed(allowance: &Uint256, amount: &Uint256) -> (needed: bool)
    ensures
        needed == (allowance@ < amount@),
{
    allowance.is_less(amount)
}

/// The amounts of a swap in the smallest units on chain: the input to the nearest, the least
/// output rounded up.
pub fn raw_amounts(request: &SwapRequest) -> (result: Result<(Uint256, Uint256), AmountError>)
    ensures
        match (
            crate::evm::amounts::chain_amount_result(
                request.amount_in,
                request.decimals_in,
                false,
            ),
            crate::evm::amounts::chain_amount_result(
                request.amount_out_min,
                request.decimals_out,
                true,
            ),
        ) {
            (Err(error), _) => result == Err::<(Uint256, Uint256), AmountError>(error),
            (Ok(_), Err(error)) => result == Err::<(Uint256, Uint256), AmountError>(error),
            (Ok(amount_in), Ok(amount_out_min)) => result matches Ok(amounts) && amounts.0@
                == amount_in && amounts.1@ == amount_out_min,
        },
{
    let amount_in: Uint256 = match to_bigint(request.amount_in, request.decimals_in) {
        Ok(amount) => amount,
        Err(error) => {
            return Err(error);
        },
    };
    match to_bigint_ceil(request.amount_out_min, request.decimals_out) {
        Ok(amount_out_min) => Ok((amount_in, amount_out_min)),
        Err(error) => Err(error),
    }
}

/// What a log transfers of a token to a recipient, if anything.
pub open spec fn transferred(
    log: ReceiptLog,
    token_out: Seq<u8>,
    recipient: Seq<u8>,
) -> Option<nat> {
    match log.transfer {
        Some(transfer) => if log.address@ == token_out && transfer.to@ == recipient {
            Some(transfer.value@)
        } else {
            None
        },
        None => None,
    }
}

/// What the first log that transfers the token to the recipient transfers.
pub open spec fn first_transfer(
    logs: Seq<ReceiptLog>,
    token_out: Seq<u8>,
    recipient: Seq<u8>,
) -> Option<nat>
    decreases logs.len(),
{
    if logs.len() == 0 {
        None
    } else {
        match transferred(logs[0], token_out, recipient) {
            Some(value) => Some(value),
            None => first_transfer(logs.drop_first(), token_out, recipient),
        }
    }
}

/// Finds how much of a token was transferred to a recipient.
pub fn parse_transfer_out(logs: &Vec<ReceiptLog>, token_out: &Vec<u8>, recipient: &Vec<u8>) -> (result:
    Option<Uint256>)
    ensures
        match result {
            Some(value) => first_transfer(logs@, token_out@, recipient@) == Some(value@),
            None => first_transfer(logs@, token_out@, recipient@) is None,
        },
{
    let mut i: usize = 0;
    assert(logs@.skip(0) == logs@);
    while i < logs.len()
        invariant
            i <= logs@.len(),
            first_transfer(logs@.skip(i as int), token_out@, recipient@) == first_transfer(
                logs@,
                token_out@,
                recipient@,
            ),
        decreases logs@.len() - i,
    {
        let log: &ReceiptLog = &logs[i];
        proof {
            assert(logs@.skip(i as int).drop_first() == logs@.skip(i + 1));
        }
        match &log.transfer {
            Some(transfer) => {
                if same_bytes(&log.address, token_out) && same_bytes(&transfer.to, recipient) {
                    return Some(transfer.value);
                }
            },
            None => {},
        }
        i = i + 1;
    }
    None
}

/// Why a swap that was sent is not known to have brought what it should.
#[derive(Debug, Clone)]
pub enum SettleError {
    Reverted(Reverted),
    TransferMissing(TransferEventMissing),
    Amount(AmountError),
}

/// What a receipt says of a swap.
pub ghost enum Settled {
    Brought(Double),
    Reverted,
    TransferMissing,
    Amount(AmountError),
}

/// What a receipt says of a swap: it counts only if the transaction succeeded, and brings what was
/// transferred to the recipient. `decimals` are those of the output.
pub open spec fn settled(
    receipt: Receipt,
    token_out: Seq<u8>,
    recipient: Seq<u8>,
    decimals: u8,
) -> Settled {
    if !receipt.status {
        Settled::Reverted
    } else {
        match first_transfer(receipt.logs@, token_out, recipient) {
            None => Settled::TransferMissing,
            Some(value) => match crate::evm::amounts::plain_amount(value, decimals) {
                Ok(amount) => Settled::Brought(amount),
                Err(error) => Settled::Amount(error),
            },
        }
    }
}

/// Reads the receipt of a swap.
pub fn settle_swap_receipt(
    receipt: &Receipt,
    token_out: &Vec<u8>,
    recipient: &Vec<u8>,
    decimals: u8,
) -> (result: Result<SwapOutcome, SettleError>)
    ensures
        match settled(*receipt, token_out@, recipient@, decimals) {
            Settled::Brought(amount) => result matches Ok(outcome) && outcome.amount_out == amount
                && outcome.tx_hash@ == receipt.tx_hash@,
            Settled::Reverted => result matches Err(SettleError::Reverted(error)) && error.tx_hash@
                == receipt.tx_hash@ && error.action@ == "swap"@,
            Settled::TransferMissing => result matches Err(SettleError::TransferMissing(error))
                && error.tx_hash@ == receipt.tx_hash@,
            Settled::Amount(fault) => result matches Err(SettleError::Amount(error)) && error
                == fault,
        },
{
    match ensure_transaction_succeeded(receipt.status, receipt.tx_hash.as_str(), "swap") {
        Ok(()) => {},
        Err(error) => {
            return Err(SettleError::Reverted(error));
        },
    }
    let actual_out: Uint256 = match parse_transfer_out(&receipt.logs, token_out, recipient) {
        Some(value) => value,
        None => {
            return Err(
                SettleError::TransferMissing(
                    TransferEventMissing { tx_hash: receipt.tx_hash.clone() },
                ),
            );
        },
    };
    match from_bigint(actual_out, decimals) {
        Ok(amount_out) => Ok(SwapOutcome { amount_out, tx_hash: receipt.tx_hash.clone() }),
        Err(error) => Err(SettleError::Amount(error)),
    }
}

/// A swap counts as having brought something only if its transaction succeeded and a log of the
/// token's contract transfers to the recipient.
pub proof fn law_nothing_is_taken_as_brought_without_a_transfer(
    receipt: Receipt,
    token_out: Seq<u8>,
    recipient: Seq<u8>,
    decimals: u8,
    amount: Double,
)
    requires
        settled(receipt, token_out, recipient, decimals) == Settled::Brought(amount),
    ensures
        receipt.status,
        exists|i: int|
            #![trigger receipt.logs@[i]]
            0 <= i < receipt.logs@.len() && transferred(
                receipt.logs@[i],
                token_out,
                recipient,
            ) is Some,
{
    let i: int = lemma_first_transfer(receipt.logs@, token_out, recipient);
    assert(transferred(receipt.logs@[i], token_out, recipient) is Some);
}

proof fn lemma_first_transfer(logs: Seq<ReceiptLog>, token_out: Seq<u8>, recipient: Seq<u8>) -> (i:
    int)
    requires
        first_transfer(logs, token_out, recipient) is Some,
    ensures
        0 <= i < logs.len(),
        transferred(logs[i], token_out, recipient) == first_transfer(logs, token_out, recipient),
    decreases logs.len(),
{
    if transferred(logs[0], token_out, recipient) is Some {
        0
    } else {
        let k: int = lemma_first_transfer(logs.drop_first(), token_out, recipient);
        assert(logs.drop_first()[k] == logs[k + 1]);
        k + 1
    }
}

/// Whether a log tells of a transfer of the token to the recipient.
pub open spec fn pays(log: ReceiptLog, token_out: Seq<u8>, recipient: Seq<u8>) -> bool {
    &&& log.address@ == token_out
    &&& log.transfer matches Some(transfer)
    &&& transfer.to@ == recipient
}

/// What a swap brought is what the first log that pays the recipient in the token says, and no
/// other. A swap that reverted brought nothing, whatever its logs say.
pub proof fn law_swaps_bring_what_the_first_payment_says(
    receipt: Receipt,
    token_out: Seq<u8>,
    recipient: Seq<u8>,
    decimals: u8,
)
    ensures
        settled(receipt, token_out, recipient, decimals) == Settled::Reverted <==> !receipt.status,
        settled(receipt, token_out, recipient, decimals) == Settled::TransferMissing <==>
            receipt.status && (forall|i: int|
            0 <= i < receipt.logs@.len() ==> !pays(
                #[trigger] receipt.logs@[i],
                token_out,
                recipient,
            )),
        forall|i: int|
            0 <= i < receipt.logs@.len() && receipt.status && pays(
                #[trigger] receipt.logs@[i],
                token_out,
                recipient,
            ) && (forall|j: int|
                0 <= j < i ==> !pays(#[trigger] receipt.logs@[j], token_out, recipient)) ==> settled(
                receipt,
                token_out,
                recipient,
                decimals,
            ) == match crate::evm::amounts::plain_amount(
                receipt.logs@[i].transfer->Some_0.value@,
                decimals,
            ) {
                Ok(amount) => Settled::Brought(amount),
                Err(error) => Settled::Amount(error),
            },
{
    let logs: Seq<ReceiptLog> = receipt.logs@;
    if first_transfer(logs, token_out, recipient) is Some {
        let k: int = lemma_first_transfer(logs, token_out, recipient);
        assert(pays(logs[k], token_out, recipient));
    }
    assert forall|i: int|
        0 <= i < logs.len() && pays(#[trigger] logs[i], token_out, recipient) && (forall|j: int|
            0 <= j < i ==> !pays(#[trigger] logs[j], token_out, recipient)) implies first_transfer(
        logs,
        token_out,
        recipient,
    ) == Some(logs[i].transfer->Some_0.value@) by {
        lemma_first_payment(logs, token_out, recipient, i);
    }
    assert forall|i: int|
        0 <= i < logs.len() && pays(#[trigger] logs[i], token_out, recipient) implies first_transfer(
        logs,
        token_out,
        recipient,
    ) is Some by {
        lemma_some_payment(logs, token_out, recipient, i);
    }
}

proof fn lemma_first_payment(
    logs: Seq<ReceiptLog>,
    token_out: Seq<u8>,
    recipient: Seq<u8>,
    i: int,
)
    requires
        0 <= i < logs.len(),
        pays(logs[i], token_out, recipient),
        forall|j: int| 0 <= j < i ==> !pays(#[trigger] logs[j], token_out, recipient),
    ensures
        first_transfer(logs, token_out, recipient) == Some(logs[i].transfer->Some_0.value@),
    decreases i,
{
    if i > 0 {
        let rest: Seq<ReceiptLog> = logs.drop_first();
        assert(!pays(logs[0], token_out, recipient));
        assert forall|j: int| 0 <= j < i - 1 implies !pays(
            #[trigger] rest[j],
            token_out,
            recipient,
        ) by {
            assert(rest[j] == logs[j + 1]);
        }
        lemma_first_payment(rest, token_out, recipient, i - 1);
    }
}

proof fn lemma_some_payment(
    logs: Seq<ReceiptLog>,
    token_out: Seq<u8>,
    recipient: Seq<u8>,
    i: int,
)
    requires
        0 <= i < logs.len(),
        pays(logs[i], token_out, recipient),
    ensures
        first_transfer(logs, token_out, recipient) is Some,
    decreases i,
{
    if i > 0 {
        assert(logs.drop_first()[i - 1] == logs[i]);
        lemma_some_payment(logs.drop_first(), token_out, recipient, i - 1);
    }
}

} // verus!
