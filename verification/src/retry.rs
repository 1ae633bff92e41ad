use vstd::prelude::*;

verus! {

/// Number of failed attempts that are followed by another attempt.
pub const MAX_RETRIES: u32 = 5;

/// `2^n`: the backoff delay, in seconds, before the retry that follows
/// the `(n + 1)`-th failed attempt.
pub open spec fn doubling(n: nat) -> nat
    decreases n,
{
    if n == 0 {
        1
    } else {
        2 * doubling((n - 1) as nat)
    }
}

/// What a caller does after a failed attempt.
#[derive(Debug, PartialEq, Eq)]
pub enum RetryDecision {
    /// Sleep this many seconds, then try again.
    RetryAfter(u64),
    /// Stop trying.
    GiveUp,
}

/// The decision taken after a failed attempt that was preceded by
/// `failures` failed attempts.
pub open spec fn decision_after(failures: nat) -> RetryDecision {
    if failures < MAX_RETRIES {
        RetryDecision::RetryAfter(doubling(failures) as u64)
    } else {
        RetryDecision::GiveUp
    }
}

/// Exponential backoff bookkeeping of one request: the number of failed
/// attempts so far and the delay before the next retry.
pub struct RetryState {
    backoff: u64,
    retries: u32,
}

impl RetryState {
    #[verifier::type_invariant]
    spec fn inv(self) -> bool {
        ||| self.retries <= MAX_RETRIES && self.backoff == doubling(self.retries as nat)
        ||| self.retries == MAX_RETRIES + 1 && self.backoff == doubling(MAX_RETRIES as nat)
    }

    /// Failed attempts counted so far (it stops at `MAX_RETRIES + 1`).
    pub closed spec fn failures(self) -> nat {
        self.retries as nat
    }

    /// Seconds to wait before the next retry.
    pub closed spec fn delay(self) -> nat {
        self.backoff as nat
    }

    /// The state before the first attempt: no failure, a delay of one second.
    pub fn new() -> (s: Self)
        ensures
            s.failures() == 0,
            s.delay() == 1,
    {
        RetryState { backoff: 1, retries: 0 }
    }

    /// Records one failed attempt and says whether to retry, and after how
    /// long: the `k`-th failure (`k <= MAX_RETRIES`) is followed by a sleep
    /// of `2^(k-1)` seconds, and the failure after those gives up.
    pub fn on_failure(&mut self) -> (d: RetryDecision)
        ensures
            d == decision_after(old(self).failures()),
            old(self).failures() <= MAX_RETRIES ==> final(self).failures() == old(self).failures() + 1,
            old(self).failures() > MAX_RETRIES ==> final(self).failures() == old(self).failures(),
            old(self).failures() < MAX_RETRIES ==> final(self).delay() == 2 * old(self).delay(),
            old(self).failures() < MAX_RETRIES ==> old(self).delay() == doubling(old(self).failures()),
            old(self).failures() >= MAX_RETRIES ==> final(self).delay() == old(self).delay(),
    {
        proof {
            use_type_invariant(&*self);
            lemma_doubling_bound(self.retries as nat);
        }
        if self.retries > MAX_RETRIES {
            return RetryDecision::GiveUp;
        }
        if self.retries == MAX_RETRIES {
            *self = RetryState { backoff: self.backoff, retries: MAX_RETRIES + 1 };
            return RetryDecision::GiveUp;
        }
        let wait = self.backoff;
        *self = RetryState { backoff: wait * 2, retries: self.retries + 1 };
        RetryDecision::RetryAfter(wait)
    }
}

proof fn lemma_doubling_bound(n: nat)
    requires
        n <= MAX_RETRIES + 1,
    ensures
        doubling(n) <= 64,
{
    assert(doubling(0) == 1);
    assert(doubling(1) == 2);
    assert(doubling(2) == 4);
    assert(doubling(3) == 8);
    assert(doubling(4) == 16);
    assert(doubling(5) == 32);
    assert(doubling(6) == 64);
    assert(n == 0 || n == 1 || n == 2 || n == 3 || n == 4 || n == 5 || n == 6);
}

/// Delays double: the wait before each retry is twice the wait before the
/// previous one.
pub proof fn lemma_backoff_doubles(k: nat)
    requires
        k + 1 < MAX_RETRIES,
    ensures
        decision_after(k) matches RetryDecision::RetryAfter(a) && decision_after(k + 1) matches RetryDecision::RetryAfter(b) && b == 2 * a,
{
    lemma_doubling_bound(k + 1);
}

/// A request that keeps failing is retried exactly `MAX_RETRIES` times:
/// the failures numbered `0 .. MAX_RETRIES` are followed by a retry, and
/// every later one gives up.
pub proof fn lemma_retry_count(k: nat)
    ensures
        decision_after(k) is RetryAfter <==> k < MAX_RETRIES,
{
}

/// Waits before giving up add up to `2^MAX_RETRIES - 1` seconds: the sum of
/// the first `n` delays is `2^n - 1`.
pub proof fn lemma_total_wait(n: nat)
    ensures
        total_wait(n) + 1 == doubling(n),
    decreases n,
{
    if n > 0 {
        lemma_total_wait((n - 1) as nat);
    }
}

/// Seconds slept over the first `n` retries.
pub open spec fn total_wait(n: nat) -> nat
    decreases n,
{
    if n == 0 {
        0
    } else {
        total_wait((n - 1) as nat) + doubling((n - 1) as nat)
    }
}

} // verus!
