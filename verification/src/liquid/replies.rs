//! What the exchange answers.
use vstd::prelude::*;

use crate::decimal::parse_double;
use crate::double::Double;

verus! {

/// The status of one order in an answer.
#[derive(Debug, Clone)]
pub enum ReplyStatus {
    Success,
    WaitingForFill,
    WaitingForTrigger,
    Error(String),
    Resting { oid: u64 },
    Filled { oid: u64, avg_px: String, total_sz: String },
}

/// An answer: a list of statuses, which may be missing, or a refusal of the whole request.
#[derive(Debug, Clone)]
pub enum ExchangeReply {
    Answered(Option<Vec<ReplyStatus>>),
    Refused(String),
}

/// What became of an order.
#[derive(Debug, Clone, Copy, PartialEq, Eq, Structural)]
pub enum OrderStatus {
    Filled,
    Resting,
    /// The exchange refused the order: it never was on the book, and may be tried again.
    Rejected,
    /// The answer holds no statuses, so nothing is known of the order.
    Failed,
    /// No status in the answer is one that an order can end in.
    Unknown,
}

/// What is known of an order after the exchange has answered.
#[derive(Debug, Clone, Copy, PartialEq, Eq, Structural)]
pub struct OrderResult {
    pub status: OrderStatus,
    pub oid: Option<u64>,
    pub avg_price: Option<Double>,
    pub total_size: Option<Double>,
}

impl OrderResult {
    /// A status with nothing known beside it.
    pub open spec fn bare(status: OrderStatus) -> OrderResult {
        OrderResult { status, oid: None, avg_price: None, total_size: None }
    }

    /// A result of which only the status is known.
    pub fn with_status(status: OrderStatus) -> (result: OrderResult)
        ensures
            result == OrderResult::bare(status),
    {
        OrderResult { status, oid: None, avg_price: None, total_size: None }
    }
}

/// What one status settles, `None` where it settles nothing.
pub open spec fn settled(status: ReplyStatus) -> Option<OrderResult> {
    match status {
        ReplyStatus::Filled { oid, avg_px, total_sz } => Some(
            OrderResult {
                status: OrderStatus::Filled,
                oid: Some(oid),
                avg_price: crate::decimal::read_double(avg_px@),
                total_size: crate::decimal::read_double(total_sz@),
            },
        ),
        ReplyStatus::Resting { oid } => Some(
            OrderResult {
                status: OrderStatus::Resting,
                oid: Some(oid),
                avg_price: None,
                total_size: None,
            },
        ),
        ReplyStatus::Error(_) => Some(OrderResult::bare(OrderStatus::Rejected)),
        _ => None,
    }
}

/// What the first status that settles anything says.
pub open spec fn first_settled(statuses: Seq<ReplyStatus>) -> OrderResult
    decreases statuses.len(),
{
    if statuses.len() == 0 {
        OrderResult::bare(OrderStatus::Unknown)
    } else {
        match settled(statuses[0]) {
            Some(result) => result,
            None => first_settled(statuses.drop_first()),
        }
    }
}

/// What an answer says of the order.
pub open spec fn order_outcome(reply: ExchangeReply) -> OrderResult {
    match reply {
        ExchangeReply::Answered(None) => OrderResult::bare(OrderStatus::Failed),
        ExchangeReply::Answered(Some(statuses)) => first_settled(statuses@),
        ExchangeReply::Refused(_) => OrderResult::bare(OrderStatus::Rejected),
    }
}

fn settle(status: &ReplyStatus) -> (result: Option<OrderResult>)
    ensures
        result == settled(*status),
{
    match status {
        ReplyStatus::Filled { oid, avg_px, total_sz } => Some(
            OrderResult {
                status: OrderStatus::Filled,
                oid: Some(*oid),
                avg_price: parse_double(avg_px.as_str()),
                total_size: parse_double(total_sz.as_str()),
            },
        ),
        ReplyStatus::Resting { oid } => Some(
            OrderResult {
                status: OrderStatus::Resting,
                oid: Some(*oid),
                avg_price: None,
                total_size: None,
            },
        ),
        ReplyStatus::Error(_) => Some(OrderResult::with_status(OrderStatus::Rejected)),
        _ => None,
    }
}

fn settle_first(statuses: &Vec<ReplyStatus>) -> (result: OrderResult)
    ensures
        result == first_settled(statuses@),
{
    let mut i: usize = 0;
    assert(statuses@.skip(0) == statuses@);
    while i < statuses.len()
        invariant
            i <= statuses@.len(),
            first_settled(statuses@.skip(i as int)) == first_settled(statuses@),
        decreases statuses@.len() - i,
    {
        proof {
            assert(statuses@.skip(i as int).drop_first() == statuses@.skip(i + 1));
        }
        match settle(&statuses[i]) {
            Some(result) => {
                return result;
            },
            None => {},
        }
        i = i + 1;
    }
    OrderResult::with_status(OrderStatus::Unknown)
}

/// Reads the answer to an order.
pub fn parse_response(reply: &ExchangeReply) -> (result: OrderResult)
    ensures
        result == order_outcome(*reply),
{
    match reply {
        ExchangeReply::Answered(None) => OrderResult::with_status(OrderStatus::Failed),
        ExchangeReply::Answered(Some(statuses)) => {
            settle_first(statuses)
        },
        ExchangeReply::Refused(_) => OrderResult::with_status(OrderStatus::Rejected),
    }
}

/// Why a cancellation cannot be taken as done.
#[derive(Debug, Clone)]
pub enum CancelError {
    MissingData,
    Rejected(String),
    UnexpectedStatuses(Vec<ReplyStatus>),
}

/// Takes a cancellation as done only where the answer holds the one status that says so.
pub fn ensure_cancel_succeeded(reply: ExchangeReply) -> (result: Result<(), CancelError>)
    ensures
        match reply {
            ExchangeReply::Answered(None) => result == Err::<(), CancelError>(
                CancelError::MissingData,
            ),
            ExchangeReply::Refused(text) => result == Err::<(), CancelError>(
                CancelError::Rejected(text),
            ),
            ExchangeReply::Answered(Some(statuses)) => {
                if statuses@.len() == 1 && statuses@[0] is Success {
                    result == Ok::<(), CancelError>(())
                } else if statuses@.len() == 1 && statuses@[0] is Error {
                    result matches Err(CancelError::Rejected(text)) && text@
                        == statuses@[0]->Error_0@
                } else {
                    result == Err::<(), CancelError>(CancelError::UnexpectedStatuses(statuses))
                }
            },
        },
        result is Ok <==> cancel_done(reply),
{
    match reply {
        ExchangeReply::Answered(None) => Err(CancelError::MissingData),
        ExchangeReply::Refused(text) => Err(CancelError::Rejected(text)),
        ExchangeReply::Answered(Some(statuses)) => {
            if statuses.len() == 1 {
                match &statuses[0] {
                    ReplyStatus::Success => {
                        return Ok(());
                    },
                    ReplyStatus::Error(text) => {
                        return Err(CancelError::Rejected(text.clone()));
                    },
                    _ => {},
                }
            }
            Err(CancelError::UnexpectedStatuses(statuses))
        },
    }
}

/// An order counts as refused, and may be tried again, only where the whole request was refused
/// or the first status that settles anything is a refusal; an answer without statuses never does.
pub proof fn law_rejected_only_on_refusal(reply: ExchangeReply)
    requires
        order_outcome(reply).status == OrderStatus::Rejected,
    ensures
        match reply {
            ExchangeReply::Refused(_) => true,
            ExchangeReply::Answered(None) => false,
            ExchangeReply::Answered(Some(statuses)) => exists|i: int|
                #![trigger statuses@[i]]
                0 <= i < statuses@.len() && statuses@[i] is Error && forall|j: int|
                    0 <= j < i ==> settled(#[trigger] statuses@[j]) is None,
        },
{
    match reply {
        ExchangeReply::Answered(Some(statuses)) => {
            let i: int = lemma_first_settled(statuses@);
            assert(statuses@[i] is Error);
        },
        _ => {},
    }
}

/// Where an order was found filled, resting or refused, a status says so and all before it settle
/// nothing.
proof fn lemma_first_settled(statuses: Seq<ReplyStatus>) -> (i: int)
    requires
        first_settled(statuses).status != OrderStatus::Unknown,
    ensures
        0 <= i < statuses.len(),
        settled(statuses[i]) == Some(first_settled(statuses)),
        forall|j: int| 0 <= j < i ==> settled(#[trigger] statuses[j]) is None,
    decreases statuses.len(),
{
    if settled(statuses[0]) is Some {
        0
    } else {
        let k: int = lemma_first_settled(statuses.drop_first());
        assert(statuses.drop_first()[k] == statuses[k + 1]);
        assert forall|j: int| 0 <= j < k + 1 implies settled(#[trigger] statuses[j]) is None by {
            if j > 0 {
                assert(statuses.drop_first()[j - 1] == statuses[j]);
            }
        }
        k + 1
    }
}

/// A status that settles the order, after ones that settle nothing, is what the answer says.
pub proof fn lemma_settled_at(statuses: Seq<ReplyStatus>, i: int)
    requires
        0 <= i < statuses.len(),
        settled(statuses[i]) is Some,
        forall|j: int|
            0 <= j < i ==> !(#[trigger] statuses[j] is Filled) && !(statuses[j] is Resting) && !(
            statuses[j] is Error),
    ensures
        Some(first_settled(statuses)) == settled(statuses[i]),
    decreases i,
{
    if i > 0 {
        let rest: Seq<ReplyStatus> = statuses.drop_first();
        assert(!(statuses[0] is Filled));
        assert(rest[i - 1] == statuses[i]);
        assert forall|j: int| 0 <= j < i - 1 implies !(#[trigger] rest[j] is Filled) && !(rest[j]
            is Resting) && !(rest[j] is Error) by {
            assert(rest[j] == statuses[j + 1]);
        }
        lemma_settled_at(rest, i - 1);
    }
}

/// What an answer says of an order rests on the first status that tells of an end: resting under
/// its number, or refused. An answer without statuses says nothing, one of other statuses alone
/// leaves the order unknown, and a refusal of the request refuses the order.
pub proof fn law_answers_say_what_their_statuses_say(
    statuses: Vec<ReplyStatus>,
    i: int,
    text: String,
)
    ensures
        0 <= i < statuses@.len() && (forall|j: int|
            0 <= j < i ==> !(#[trigger] statuses@[j] is Filled) && !(statuses@[j] is Resting) && !(
            statuses@[j] is Error)) ==> {
            let order: OrderResult = order_outcome(ExchangeReply::Answered(Some(statuses)));
            &&& statuses@[i] is Resting ==> order.status == OrderStatus::Resting && order.oid
                == Some(statuses@[i]->Resting_oid)
            &&& statuses@[i] is Error ==> order.status == OrderStatus::Rejected
        },
        (forall|j: int|
            0 <= j < statuses@.len() ==> !(#[trigger] statuses@[j] is Filled) && !(statuses@[j]
                is Resting) && !(statuses@[j] is Error)) ==> order_outcome(
            ExchangeReply::Answered(Some(statuses)),
        ).status == OrderStatus::Unknown,
        order_outcome(ExchangeReply::Answered(None)).status == OrderStatus::Failed,
        order_outcome(ExchangeReply::Refused(text)).status == OrderStatus::Rejected,
{
    if 0 <= i < statuses@.len() && (forall|j: int|
        0 <= j < i ==> !(#[trigger] statuses@[j] is Filled) && !(statuses@[j] is Resting) && !(
        statuses@[j] is Error)) && (statuses@[i] is Resting || statuses@[i] is Error) {
        lemma_settled_at(statuses@, i);
    }
    if forall|j: int|
        0 <= j < statuses@.len() ==> !(#[trigger] statuses@[j] is Filled) && !(statuses@[j]
            is Resting) && !(statuses@[j] is Error) {
        lemma_unsettled(statuses@);
    }
}

proof fn lemma_unsettled(statuses: Seq<ReplyStatus>)
    requires
        forall|j: int|
            0 <= j < statuses.len() ==> !(#[trigger] statuses[j] is Filled) && !(statuses[j]
                is Resting) && !(statuses[j] is Error),
    ensures
        first_settled(statuses) == OrderResult::bare(OrderStatus::Unknown),
    decreases statuses.len(),
{
    if statuses.len() > 0 {
        let rest: Seq<ReplyStatus> = statuses.drop_first();
        assert(!(statuses[0] is Filled));
        assert forall|j: int| 0 <= j < rest.len() implies !(#[trigger] rest[j] is Filled) && !(
        rest[j] is Resting) && !(rest[j] is Error) by {
            assert(rest[j] == statuses[j + 1]);
        }
        lemma_unsettled(rest);
    }
}

/// Whether an answer says that the cancellation it answers is done.
pub open spec fn cancel_done(reply: ExchangeReply) -> bool {
    reply is Answered && reply->Answered_0 is Some && reply->Answered_0->Some_0@.len() == 1
        && reply->Answered_0->Some_0@[0] is Success
}

/// A cancellation is taken as done on one `success` and on nothing else: not without statuses, not
/// on a refusal, and not on any other number or kind of statuses.
pub proof fn law_only_a_success_cancels(statuses: Vec<ReplyStatus>, text: String)
    ensures
        !cancel_done(ExchangeReply::Refused(text)),
        !cancel_done(ExchangeReply::Answered(None)),
        statuses@.len() != 1 ==> !cancel_done(ExchangeReply::Answered(Some(statuses))),
        statuses@.len() == 1 ==> (cancel_done(ExchangeReply::Answered(Some(statuses)))
            <==> statuses@[0] is Success),
{
}

} // verus!
