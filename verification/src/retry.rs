//! The retry-with-backoff state machine wrapped around one HTTP call: a
//! transient transport failure (connection establishment or timeout) is
//! retried after a delay that doubles each time, up to a fixed number of
//! retries; any other failure aborts at once. A provider's HTTP error status
//! is not a transport failure and never reaches this machine.

use vstd::prelude::*;

verus! {

/// How a failed transport attempt is classified.
#[derive(Clone, Copy, PartialEq, Eq, Structural)]
pub enum FailureKind {
    /// The connection could not be established.
    Connect,
    /// The attempt timed out.
    Timeout,
    /// Anything else (DNS, TLS, ...): never retried.
    Other,
}

/// Only connection-establishment failures and timeouts are transient.
pub open spec fn spec_retryable(k: FailureKind) -> bool {
    k is Connect || k is Timeout
}

/// The policy a retry loop is built with.
pub struct RetryPolicy {
    pub max_retries: u32,
    pub initial_delay_ms: u64,
}

impl RetryPolicy {
    /// The policy the engine uses: up to 3 retries, starting at 100 ms.
    pub fn engine_default() -> (r: RetryPolicy)
        ensures
            r.max_retries == 3,
            r.initial_delay_ms == 100,
    {
        RetryPolicy { max_retries: 3, initial_delay_ms: 100 }
    }
}

/// The live state of one retry loop.
pub struct RetryState {
    pub retries: u32,
    pub delay_ms: u64,
}

/// The delay slept before retry number `n` (counting from 0), under initial
/// delay `d0`: it doubles with each retry.
pub open spec fn spec_delay(d0: nat, n: nat) -> nat
    decreases n,
{
    if n == 0 {
        d0
    } else {
        2 * spec_delay(d0, (n - 1) as nat)
    }
}

impl RetryState {
    pub open spec fn wf(self, policy: RetryPolicy) -> bool {
        &&& self.retries <= policy.max_retries
        &&& self.delay_ms == spec_delay(policy.initial_delay_ms as nat, self.retries as nat)
    }

    pub fn start(policy: &RetryPolicy) -> (r: RetryState)
        ensures
            r.retries == 0,
            r.delay_ms == policy.initial_delay_ms,
            r.wf(*policy),
    {
        RetryState { retries: 0, delay_ms: policy.initial_delay_ms }
    }

    /// Decide what a failed attempt leads to: `Some(d)` orders a sleep of
    /// `d` milliseconds followed by one more attempt; `None` gives the
    /// failure up to the caller. A retry is ordered exactly when the failure
    /// is transient and retries remain, and the ordered delay doubles with
    /// each retry.
    pub fn on_failure(&mut self, policy: &RetryPolicy, kind: FailureKind) -> (r: Option<u64>)
        requires
            old(self).delay_ms <= u64::MAX / 2,
        ensures
            r is Some <==> (spec_retryable(kind) && old(self).retries < policy.max_retries),
            r is Some ==> ({
                &&& r->0 == old(self).delay_ms
                &&& final(self).retries == old(self).retries + 1
                &&& final(self).delay_ms == 2 * old(self).delay_ms
            }),
            r is None ==> *final(self) == *old(self),
            old(self).wf(*policy) && r is Some ==> final(self).wf(*policy),
    {
        match kind {
            FailureKind::Connect | FailureKind::Timeout => {
                if self.retries < policy.max_retries {
                    let d = self.delay_ms;
                    self.retries = self.retries + 1;
                    self.delay_ms = 2 * self.delay_ms;
                    Some(d)
                } else {
                    None
                }
            },
            FailureKind::Other => None,
        }
    }
}

/// Retry timing: under the engine's policy of 3 retries from 100 ms, a run
/// of transient failures sleeps 100, 200 and 400 ms before the three
/// retries, and a non-transient failure is never retried.
pub proof fn lemma_engine_retry_schedule()
    ensures
        spec_delay(100, 0) == 100,
        spec_delay(100, 1) == 200,
        spec_delay(100, 2) == 400,
        !spec_retryable(FailureKind::Other),
{
    reveal_with_fuel(spec_delay, 4);
}

} // verus!
