//! How long to wait before connecting again.
use vstd::arithmetic::power2::*;
use vstd::prelude::*;

verus! {

/// The wait after the first failure, in seconds.
pub const FIRST_DELAY_SECS: u64 = 1;

/// The longest wait, in seconds.
pub const MAX_DELAY_SECS: u64 = 60;

/// The wait after the next failure.
#[derive(Debug, Clone, Copy, PartialEq, Eq, Structural)]
pub struct Backoff {
    delay: u64,
}

/// The wait after a number of failures: it doubles each time, up to the longest.
pub open spec fn delay_after(failures: nat) -> nat {
    if pow2(failures) < MAX_DELAY_SECS {
        pow2(failures)
    } else {
        MAX_DELAY_SECS as nat
    }
}

impl Backoff {
    /// The wait after the next failure, in seconds.
    pub closed spec fn seconds(self) -> nat {
        self.delay as nat
    }

    /// Nothing has failed yet.
    pub fn new() -> (backoff: Backoff)
        ensures
            backoff.seconds() == delay_after(0),
    {
        proof {
            lemma2_to64();
        }
        Backoff { delay: FIRST_DELAY_SECS }
    }

    /// A connection failed. Gives the wait before the next try, or nothing where the system is
    /// shutting down.
    pub fn failed(&mut self, shutting_down: bool) -> (wait: Option<u64>)
        ensures
            shutting_down ==> wait is None && final(self).seconds() == old(self).seconds(),
            !shutting_down ==> {
                &&& wait is Some
                &&& wait->Some_0 == old(self).seconds()
                &&& forall|n: nat| #[trigger]
                    delay_after(n) == old(self).seconds() ==> final(self).seconds() == delay_after(
                        n + 1,
                    )
            },
    {
        if shutting_down {
            return None;
        }
        let wait: u64 = self.delay;
        self.delay = if wait >= MAX_DELAY_SECS / 2 {
            MAX_DELAY_SECS
        } else {
            wait * 2
        };
        proof {
            assert forall|n: nat| #[trigger] delay_after(n) == wait as nat implies self.delay as nat
                == delay_after(n + 1) by {
                lemma_pow2_unfold(n + 1);
            }
        }
        Some(wait)
    }
}

/// Waits lie between one second and a minute and never become shorter: each is twice the one
/// before, up to a minute.
pub proof fn law_waits_grow_up_to_a_minute(failures: nat)
    ensures
        1 <= delay_after(failures) <= 60,
        delay_after(failures) <= delay_after(failures + 1),
        delay_after(failures + 1) == if 2 * delay_after(failures) < 60 {
            2 * delay_after(failures)
        } else {
            60
        },
        delay_after(0) == 1,
        failures >= 6 ==> delay_after(failures) == 60,
{
    lemma2_to64();
    lemma_pow2_pos(failures);
    lemma_pow2_unfold(failures + 1);
    if failures > 6 {
        lemma_pow2_strictly_increases(6, failures);
    }
}

} // verus!
