//! Bounded retry of a fetch.
use vstd::prelude::*;

verus! {

/// Attempts made at a fetch before the record is given up.
pub const MAX_FETCH_ATTEMPTS: u32 = 5;

/// What to do after a failed attempt.
#[derive(Clone, Copy, Debug, PartialEq, Eq, Structural)]
pub enum FetchDecision {
    Retry,
    GiveUp,
}

/// The decision after `failures` failed attempts in a row.
pub open spec fn decision_after(failures: nat) -> FetchDecision {
    if failures < MAX_FETCH_ATTEMPTS {
        FetchDecision::Retry
    } else {
        FetchDecision::GiveUp
    }
}

/// Counts the failed attempts at one fetch.
pub struct FetchRetry {
    failures: u32,
}

impl FetchRetry {
    pub closed spec fn failures(&self) -> nat {
        self.failures as nat
    }

    pub fn new() -> (r: FetchRetry)
        ensures
            r.failures() == 0,
    {
        FetchRetry { failures: 0 }
    }

    /// Failed attempts so far.
    pub fn attempts_failed(&self) -> (r: u32)
        ensures
            r == self.failures(),
    {
        self.failures
    }

    /// Records a failed attempt and says whether to try again.
    pub fn record_failure(&mut self) -> (d: FetchDecision)
        requires
            old(self).failures() < MAX_FETCH_ATTEMPTS,
        ensures
            final(self).failures() == old(self).failures() + 1,
            d == decision_after(final(self).failures()),
    {
        self.failures = self.failures + 1;
        if self.failures < MAX_FETCH_ATTEMPTS {
            FetchDecision::Retry
        } else {
            FetchDecision::GiveUp
        }
    }
}

/// A fetch that fails every time is retried after each of its first four
/// failures and given up at the fifth: exactly five attempts are made.
pub proof fn lemma_retry_bound(failures: nat)
    requires
        1 <= failures <= MAX_FETCH_ATTEMPTS,
    ensures
        decision_after(failures) == FetchDecision::GiveUp <==> failures == MAX_FETCH_ATTEMPTS,
{
}

} // verus!
