//! The decisions of retrying an operation: after each outcome, whether to
//! stop or to try again. The operation and the waiting between attempts
//! happen outside this library.

use vstd::prelude::*;

verus! {

/// What to do after an attempt.
#[derive(Debug, Clone, Copy, PartialEq, Eq, Structural)]
pub enum RetryStep {
    /// Hand the outcome of this attempt back.
    Finish,
    /// Wait, then attempt again.
    RetryAfterDelay,
}

/// The attempts made so far, against a limit.
#[derive(Debug, Clone, Copy)]
pub struct RetryState {
    attempts: u32,
    max_attempts: u32,
}

/// The number of attempts a limit allows: the limit, and at least one.
pub open spec fn allowed_attempts(max_attempts: u32) -> nat {
    if max_attempts == 0 { 1 } else { max_attempts as nat }
}

/// The step after attempt number `attempt` (counting from 1) with limit
/// `max_attempts`: a success finishes, a failure finishes once the limit is
/// reached.
pub open spec fn step_after(attempt: nat, max_attempts: u32, failed: bool) -> RetryStep {
    if !failed || attempt >= max_attempts { RetryStep::Finish } else { RetryStep::RetryAfterDelay }
}

impl RetryState {
    /// Attempts made so far.
    pub closed spec fn attempts_made(&self) -> nat {
        self.attempts as nat
    }

    /// The limit.
    pub closed spec fn limit(&self) -> u32 {
        self.max_attempts
    }

    /// No attempt made yet, with limit `max_attempts`.
    pub fn new(max_attempts: u32) -> (s: Self)
        ensures
            s.attempts_made() == 0,
            s.limit() == max_attempts,
    {
        RetryState { attempts: 0, max_attempts }
    }

    /// Attempts made so far.
    pub fn attempts(&self) -> (n: u32)
        ensures
            n == self.attempts_made(),
    {
        self.attempts
    }

    /// Records the outcome of one more attempt and says what to do next.
    /// More attempts than the limit allows are never asked for.
    pub fn record(&mut self, failed: bool) -> (step: RetryStep)
        requires
            old(self).attempts_made() < allowed_attempts(old(self).limit()),
        ensures
            final(self).limit() == old(self).limit(),
            final(self).attempts_made() == old(self).attempts_made() + 1,
            step == step_after(final(self).attempts_made(), old(self).limit(), failed),
            step == RetryStep::RetryAfterDelay ==> final(self).attempts_made() < allowed_attempts(final(self).limit()),
    {
        self.attempts = self.attempts + 1;
        if !failed || self.attempts >= self.max_attempts {
            RetryStep::Finish
        } else {
            RetryStep::RetryAfterDelay
        }
    }
}

/// The steps after `n` failed attempts in a row.
pub open spec fn steps_after_failures(max_attempts: u32, n: nat) -> Seq<RetryStep>
    decreases n,
{
    if n == 0 {
        Seq::empty()
    } else {
        steps_after_failures(max_attempts, (n - 1) as nat).push(step_after(n, max_attempts, true))
    }
}

/// An operation that always fails is attempted exactly as many times as its
/// limit allows: every attempt before the last asks for a retry, the last
/// finishes.
pub proof fn lemma_failures_stop_at_limit(max_attempts: u32, n: nat)
    requires
        1 <= n <= allowed_attempts(max_attempts),
    ensures
        steps_after_failures(max_attempts, n).len() == n,
        forall|i: int| 0 <= i < n - 1 ==> #[trigger] steps_after_failures(max_attempts, n)[i] == RetryStep::RetryAfterDelay,
        steps_after_failures(max_attempts, n)[n - 1] == (if n == allowed_attempts(max_attempts) {
            RetryStep::Finish
        } else {
            RetryStep::RetryAfterDelay
        }),
    decreases n,
{
    if n == 1 {
        assert(steps_after_failures(max_attempts, 0).len() == 0);
    }
    if n > 1 {
        lemma_failures_stop_at_limit(max_attempts, (n - 1) as nat);
        assert forall|i: int| 0 <= i < n - 1 implies #[trigger] steps_after_failures(max_attempts, n)[i] == RetryStep::RetryAfterDelay by {
            assert(steps_after_failures(max_attempts, n)[i] == steps_after_failures(max_attempts, (n - 1) as nat)[i]);
        }
    }
}

/// A success finishes at once, whatever attempt it is.
pub proof fn lemma_success_finishes(attempt: nat, max_attempts: u32)
    ensures
        step_after(attempt, max_attempts, false) == RetryStep::Finish,
{
}

} // verus!
