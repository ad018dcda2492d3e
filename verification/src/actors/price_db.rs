//! The writer of price records.
use vstd::prelude::*;

verus! {

/// Old rows are pruned after this many successful writes.
pub const PRUNE_EVERY_INSERTS: u32 = 1_000;

/// The writer gives up after this many failed writes in a row.
pub const MAX_CONSECUTIVE_WRITE_FAILURES: u32 = 3;

/// What the writer counts.
#[derive(Debug, Clone, Copy, PartialEq, Eq, Structural)]
pub struct PriceWriter {
    /// Successful writes since the last pruning.
    pub inserts: u32,
    /// Failed writes in a row.
    pub failures: u32,
}

/// What the writer does after a write.
#[derive(Debug, Clone, Copy, PartialEq, Eq, Structural)]
pub enum WriterAction {
    Continue,
    Prune,
    Stop,
}

impl PriceWriter {
    /// The counters stay below their limits while the writer runs.
    pub open spec fn well_formed(self) -> bool {
        self.inserts < PRUNE_EVERY_INSERTS && self.failures < MAX_CONSECUTIVE_WRITE_FAILURES
    }

    /// What a write does to the counters, and what follows from it.
    pub open spec fn after_write(self, succeeded: bool) -> (PriceWriter, WriterAction) {
        if succeeded {
            if self.inserts + 1 == PRUNE_EVERY_INSERTS {
                (PriceWriter { inserts: 0, failures: 0 }, WriterAction::Prune)
            } else {
                (
                    PriceWriter { inserts: (self.inserts + 1) as u32, failures: 0 },
                    WriterAction::Continue,
                )
            }
        } else {
            let failures: u32 = (self.failures + 1) as u32;
            (
                PriceWriter { inserts: self.inserts, failures },
                if failures >= MAX_CONSECUTIVE_WRITE_FAILURES {
                    WriterAction::Stop
                } else {
                    WriterAction::Continue
                },
            )
        }
    }

    /// A writer that has written nothing yet.
    pub fn new() -> (writer: PriceWriter)
        ensures
            writer == (PriceWriter { inserts: 0, failures: 0 }),
            writer.well_formed(),
    {
        PriceWriter { inserts: 0, failures: 0 }
    }

    /// Counts a write.
    pub fn written(&mut self, succeeded: bool) -> (action: WriterAction)
        requires
            old(self).well_formed(),
        ensures
            (*final(self), action) == old(self).after_write(succeeded),
            action != WriterAction::Stop ==> final(self).well_formed(),
    {
        if succeeded {
            self.failures = 0;
            self.inserts = self.inserts + 1;
            if self.inserts == PRUNE_EVERY_INSERTS {
                self.inserts = 0;
                return WriterAction::Prune;
            }
            WriterAction::Continue
        } else {
            self.failures = self.failures + 1;
            if self.failures >= MAX_CONSECUTIVE_WRITE_FAILURES {
                WriterAction::Stop
            } else {
                WriterAction::Continue
            }
        }
    }
}

/// The counters after a series of writes, `true` for each that succeeded.
pub open spec fn after_writes(outcomes: Seq<bool>) -> PriceWriter
    decreases outcomes.len(),
{
    if outcomes.len() == 0 {
        PriceWriter { inserts: 0, failures: 0 }
    } else {
        after_writes(outcomes.drop_last()).after_write(outcomes.last()).0
    }
}

/// How many writes of a series succeeded.
pub open spec fn successes(outcomes: Seq<bool>) -> nat
    decreases outcomes.len(),
{
    if outcomes.len() == 0 {
        0
    } else {
        successes(outcomes.drop_last()) + if outcomes.last() {
            1nat
        } else {
            0nat
        }
    }
}

/// How many writes at the end of a series failed in a row.
pub open spec fn trailing_failures(outcomes: Seq<bool>) -> nat
    decreases outcomes.len(),
{
    if outcomes.len() == 0 || outcomes.last() {
        0
    } else {
        1 + trailing_failures(outcomes.drop_last())
    }
}

/// Whether no three writes in a row failed.
pub open spec fn never_stopped(outcomes: Seq<bool>) -> bool
    decreases outcomes.len(),
{
    outcomes.len() == 0 || (never_stopped(outcomes.drop_last()) && trailing_failures(outcomes)
        < MAX_CONSECUTIVE_WRITE_FAILURES)
}

/// The next write prunes exactly where it succeeds and makes the number of successful writes a
/// multiple of a thousand; it stops the writer exactly where it is the third failure in a row.
pub proof fn law_writer_prunes_and_stops_on_time(outcomes: Seq<bool>, next: bool)
    requires
        never_stopped(outcomes),
    ensures
        ({
            let action: WriterAction = after_writes(outcomes).after_write(next).1;
            let total: nat = successes(outcomes.push(next));
            &&& action == WriterAction::Prune <==> next && total % 1_000 == 0
            &&& action == WriterAction::Stop <==> trailing_failures(outcomes.push(next)) == 3
        }),
{
    lemma_counters(outcomes);
    assert(outcomes.push(next).drop_last() == outcomes);
}

proof fn lemma_counters(outcomes: Seq<bool>)
    requires
        never_stopped(outcomes),
    ensures
        after_writes(outcomes).inserts == successes(outcomes) % (PRUNE_EVERY_INSERTS as nat),
        after_writes(outcomes).failures == trailing_failures(outcomes),
        after_writes(outcomes).well_formed(),
    decreases outcomes.len(),
{
    if outcomes.len() > 0 {
        lemma_counters(outcomes.drop_last());
    }
}

} // verus!
