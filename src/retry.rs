use vstd::arithmetic::power2::{lemma_pow2_unfold, pow2};
use vstd::prelude::*;

use crate::errors::{transient, FlareSyncError};

verus! {

/// How often, and after what waits, a failed operation is tried again.
#[derive(Clone, Copy, Debug, PartialEq, Eq, Structural)]
pub struct RetryPolicy {
    /// How many times a failed operation is tried again at most.
    pub max_retries: u32,
    /// The wait before the first retry, in seconds.
    pub initial_wait_secs: u64,
    /// The longest wait, in seconds.
    pub max_wait_secs: u64,
}

/// How many times the operation under a policy has been tried again so far.
#[derive(Clone, Copy, Debug, PartialEq, Eq, Structural)]
pub struct RetryState {
    pub retries: u32,
}

/// What to do after a failed attempt.
#[derive(Clone, Copy, Debug, PartialEq, Eq, Structural)]
pub enum RetryDecision {
    /// Wait this many seconds, then try again.
    Retry { wait_secs: u64 },
    /// Hand the error to the caller.
    GiveUp,
}

pub open spec fn min_nat(x: nat, y: nat) -> nat {
    if x <= y {
        x
    } else {
        y
    }
}

/// The wait before retry number `k` (counted from 0): the initial wait, doubled after every
/// retry, and never longer than the policy's longest wait.
pub open spec fn backoff(p: RetryPolicy, k: nat) -> nat
    decreases k,
{
    if k == 0 {
        min_nat(p.initial_wait_secs as nat, p.max_wait_secs as nat)
    } else {
        min_nat(2 * backoff(p, (k - 1) as nat), p.max_wait_secs as nat)
    }
}

/// The decision after an attempt failed with `e`, when `retries` retries have been made.
pub open spec fn decide(p: RetryPolicy, retries: nat, e: FlareSyncError) -> RetryDecision {
    if !transient(e) || retries >= p.max_retries {
        RetryDecision::GiveUp
    } else {
        RetryDecision::Retry { wait_secs: backoff(p, retries) as u64 }
    }
}

proof fn lemma_backoff_bounded(p: RetryPolicy, k: nat)
    ensures
        backoff(p, k) <= p.max_wait_secs,
    decreases k,
{
    if k > 0 {
        lemma_backoff_bounded(p, (k - 1) as nat);
    }
}

impl RetryPolicy {
    /// The policy of every outbound call: three retries, waiting one second first, doubling,
    /// and at most sixty seconds.
    pub fn standard() -> (r: RetryPolicy)
        ensures
            r == (RetryPolicy { max_retries: 3, initial_wait_secs: 1, max_wait_secs: 60 }),
    {
        RetryPolicy { max_retries: 3, initial_wait_secs: 1, max_wait_secs: 60 }
    }

    /// The wait before retry number `k` (counted from 0), in seconds.
    pub fn backoff_secs(&self, k: u32) -> (r: u64)
        ensures
            r == backoff(*self, k as nat),
    {
        let cap = self.max_wait_secs;
        let mut w: u64 = if self.initial_wait_secs <= cap {
            self.initial_wait_secs
        } else {
            cap
        };
        let mut i: u32 = 0;
        while i < k
            invariant
                i <= k,
                w == backoff(*self, i as nat),
                cap == self.max_wait_secs,
            decreases k - i,
        {
            proof {
                lemma_backoff_bounded(*self, i as nat);
            }
            w = if w > cap / 2 {
                cap
            } else {
                2 * w
            };
            i = i + 1;
        }
        w
    }

    /// Records a failed attempt in `state` and says what to do next: a transient error is tried
    /// again after the backoff wait while retries are left; anything else goes to the caller.
    pub fn on_failure(&self, state: &mut RetryState, error: &FlareSyncError) -> (d: RetryDecision)
        ensures
            d == decide(*self, old(state).retries as nat, *error),
            final(state).retries == if d is Retry {
                old(state).retries + 1
            } else {
                old(state).retries as int
            },
    {
        if !error.is_transient() || state.retries >= self.max_retries {
            return RetryDecision::GiveUp;
        }
        let wait_secs = self.backoff_secs(state.retries);
        state.retries = state.retries + 1;
        RetryDecision::Retry { wait_secs }
    }
}

impl RetryState {
    /// The state before the first attempt.
    pub fn new() -> (r: RetryState)
        ensures
            r.retries == 0,
    {
        RetryState { retries: 0 }
    }
}

/// Under a policy, an operation that keeps failing with transient errors is tried again after
/// each of its first `max_retries` failures and given up after the next one, so it is attempted
/// exactly `1 + max_retries` times; an operation that fails with a permanent error is given up
/// at once.
pub proof fn lemma_attempt_count(p: RetryPolicy, e: FlareSyncError)
    ensures
        transient(e) ==> forall|k: nat| k < p.max_retries ==> #[trigger] decide(p, k, e) is Retry,
        transient(e) ==> decide(p, p.max_retries as nat, e) is GiveUp,
        !transient(e) ==> decide(p, 0, e) is GiveUp,
{
}

/// No wait is longer than the policy's longest wait, and a wait that is not yet at that bound
/// doubles at the next retry.
pub proof fn lemma_backoff_doubles_capped(p: RetryPolicy, k: nat)
    ensures
        backoff(p, k) <= p.max_wait_secs,
        backoff(p, k + 1) == min_nat(2 * backoff(p, k), p.max_wait_secs as nat),
{
    lemma_backoff_bounded(p, k);
}

/// Under the standard policy, retry number `k` waits `min(2^k, 60)` seconds.
pub proof fn lemma_standard_backoff(k: nat)
    ensures
        backoff(
            RetryPolicy { max_retries: 3, initial_wait_secs: 1, max_wait_secs: 60 },
            k,
        ) == min_nat(pow2(k), 60),
    decreases k,
{
    let p = RetryPolicy { max_retries: 3, initial_wait_secs: 1, max_wait_secs: 60 };
    if k == 0 {
        assert(pow2(0) == 1) by {
            vstd::arithmetic::power2::lemma2_to64();
        }
    } else {
        lemma_standard_backoff((k - 1) as nat);
        lemma_pow2_unfold(k);
    }
}

} // verus!
