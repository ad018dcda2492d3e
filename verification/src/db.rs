//! What is kept across restarts.
use vstd::prelude::*;

verus! {

/// How far a trade in progress had come, so that people can finish it.
#[derive(Debug, PartialEq, Eq)]
pub struct RecoveryRecord {
    pub pair: String,
    pub stage: String,
    pub direction: String,
    pub evm_tx_hash: Option<String>,
    pub liquid_oid: Option<u64>,
    pub reason: String,
}

/// What a [`RecoveryRecord`] says.
#[verifier::ext_equal]
pub ghost struct RecordView {
    pub pair: Seq<char>,
    pub stage: Seq<char>,
    pub direction: Seq<char>,
    pub evm_tx_hash: Option<Seq<char>>,
    pub liquid_oid: Option<u64>,
    pub reason: Seq<char>,
}

/// What an optional string says.
pub open spec fn optional_text(text: Option<String>) -> Option<Seq<char>> {
    match text {
        Some(s) => Some(s@),
        None => None,
    }
}

impl View for RecoveryRecord {
    type V = RecordView;

    open spec fn view(&self) -> RecordView {
        RecordView {
            pair: self.pair@,
            stage: self.stage@,
            direction: self.direction@,
            evm_tx_hash: optional_text(self.evm_tx_hash),
            liquid_oid: self.liquid_oid,
            reason: self.reason@,
        }
    }
}

/// A copy of an optional string.
pub fn copy_text(text: &Option<String>) -> (copy: Option<String>)
    ensures
        copy == *text,
{
    match text {
        Some(s) => Some(s.clone()),
        None => None,
    }
}

impl Clone for RecoveryRecord {
    fn clone(&self) -> (result: Self)
        ensures
            result == *self,
    {
        RecoveryRecord {
            pair: self.pair.clone(),
            stage: self.stage.clone(),
            direction: self.direction.clone(),
            evm_tx_hash: copy_text(&self.evm_tx_hash),
            liquid_oid: self.liquid_oid,
            reason: self.reason.clone(),
        }
    }
}

/// Why live trading does not start: this many trades were left unfinished.
#[derive(Debug, Clone, Copy, PartialEq, Eq, Structural)]
pub struct UnresolvedRecoveries {
    pub count: usize,
}

/// Refuses to start live trading while unfinished trades are on record.
pub fn ensure_startup_safe(dry_run: bool, unresolved: &[RecoveryRecord]) -> (result: Result<
    (),
    UnresolvedRecoveries,
>)
    ensures
        result == if dry_run || unresolved@.len() == 0 {
            Ok::<(), UnresolvedRecoveries>(())
        } else {
            Err::<(), UnresolvedRecoveries>(
                UnresolvedRecoveries { count: unresolved@.len() as usize },
            )
        },
{
    if dry_run || unresolved.len() == 0 {
        Ok(())
    } else {
        Err(UnresolvedRecoveries { count: unresolved.len() })
    }
}

/// A limit of zero rows keeps nothing and is refused.
#[derive(Debug, Clone, Copy, PartialEq, Eq, Structural)]
pub struct ZeroRowLimit;

/// By how many rows a count is over a limit.
pub open spec fn excess_rows(count: nat, max_rows: nat) -> nat {
    if count > max_rows {
        (count - max_rows) as nat
    } else {
        0
    }
}

/// Pruning leaves as many rows as the limit allows and no fewer than it has to; what it leaves,
/// pruning again under the same limit leaves alone.
pub proof fn law_pruning_keeps_the_limit(count: nat, max_rows: nat)
    ensures
        excess_rows(count, max_rows) <= count,
        ({
            let left: int = count - excess_rows(count, max_rows);
            &&& left == if count < max_rows {
                count
            } else {
                max_rows
            }
            &&& excess_rows(left as nat, max_rows) == 0
        }),
{
}

/// How many of the oldest of `count` price rows to delete so that at most `max_rows` stay.
pub fn prune_prices(count: usize, max_rows: usize) -> (result: Result<usize, ZeroRowLimit>)
    ensures
        match result {
            Err(_) => max_rows == 0,
            Ok(excess) => max_rows > 0 && excess == excess_rows(count as nat, max_rows as nat),
        },
{
    if max_rows == 0 {
        return Err(ZeroRowLimit);
    }
    Ok(
        if count > max_rows {
            count - max_rows
        } else {
            0
        },
    )
}

} // verus!
