//! Retry policy: pure decisions over a status code and an attempt number.
use vstd::prelude::*;

use crate::config::schema;

verus! {

/// Decision of [`RetryPolicy::decide_status`].
#[derive(Debug, Clone, Copy, PartialEq, Eq, Structural)]
pub enum RetryDecision {
    /// The status code is final; return it to the caller.
    Stop,
    /// The status asks for a retry and there are attempts left.
    Retry,
}

/// When a request is sent again.
#[derive(Debug, Clone)]
pub struct RetryPolicy {
    /// Maximum total attempts, the original one included. 0 or 1 means that
    /// there is no retry.
    pub attempts: u32,
    /// Status codes that trigger a retry.
    pub on_status: Vec<u16>,
    /// Whether to retry on errors of the connect phase.
    pub on_connect_error: bool,
}

impl Default for RetryPolicy {
    fn default() -> (r: RetryPolicy)
        ensures
            r.attempts == 0,
            r.on_status@.len() == 0,
            !r.on_connect_error,
    {
        RetryPolicy { attempts: 0, on_status: Vec::new(), on_connect_error: false }
    }
}

/// A fresh list of the same numbers.
pub(crate) fn copy_codes(v: &Vec<u16>) -> (r: Vec<u16>)
    ensures
        r@ == v@,
{
    let mut r: Vec<u16> = Vec::new();
    for i in 0..v.len()
        invariant
            r@ == v@.take(i as int),
    {
        r.push(v[i]);
        assert(v@.take(i + 1) =~= v@.take(i as int).push(v@[i as int]));
    }
    assert(v@.take(v@.len() as int) =~= v@);
    r
}

impl RetryPolicy {
    /// How many times a request is sent at most.
    pub open spec fn budget(self) -> nat {
        if self.attempts == 0 {
            1
        } else {
            self.attempts as nat
        }
    }

    /// The decision on `status` after the zero-based `attempt`.
    pub open spec fn decision(self, status: u16, attempt: nat) -> RetryDecision {
        if self.on_status@.contains(status) && attempt + 1 < self.attempts {
            RetryDecision::Retry
        } else {
            RetryDecision::Stop
        }
    }

    /// A policy that never retries.
    pub fn none() -> (r: RetryPolicy)
        ensures
            r.attempts == 0,
            r.on_status@.len() == 0,
            !r.on_connect_error,
    {
        RetryPolicy::default()
    }

    /// The policy that a configuration asks for.
    #[must_use]
    pub fn from_config(cfg: &schema::RetryPolicy) -> (r: RetryPolicy)
        ensures
            r.attempts == cfg.attempts,
            r.on_status@ == cfg.on_status@,
            r.on_connect_error == cfg.on_connect_error,
    {
        RetryPolicy {
            attempts: cfg.attempts,
            on_status: copy_codes(&cfg.on_status),
            on_connect_error: cfg.on_connect_error,
        }
    }

    /// A copy of the policy.
    pub fn copy(&self) -> (r: RetryPolicy)
        ensures
            r.attempts == self.attempts,
            r.on_status@ == self.on_status@,
            r.on_connect_error == self.on_connect_error,
    {
        RetryPolicy {
            attempts: self.attempts,
            on_status: copy_codes(&self.on_status),
            on_connect_error: self.on_connect_error,
        }
    }

    /// Decides whether a response with `status` after `attempt` triggers a
    /// retry. `attempt` is zero-based: attempt 0 is the initial request.
    ///
    /// The answer is [`RetryDecision::Retry`] exactly where `status` is in
    /// `on_status` and `attempt + 1 < attempts`.
    pub fn decide_status(&self, status: u16, attempt: u32) -> (r: RetryDecision)
        ensures
            r == self.decision(status, attempt as nat),
    {
        let mut i: usize = 0;
        while i < self.on_status.len()
            invariant
                i <= self.on_status@.len(),
                forall|j: int| 0 <= j < i ==> self.on_status@[j] != status,
            decreases self.on_status@.len() - i,
        {
            if self.on_status[i] == status {
                assert(self.on_status@.contains(status));
                if self.attempts <= 1 || attempt >= self.attempts - 1 {
                    return RetryDecision::Stop;
                }
                return RetryDecision::Retry;
            }
            i += 1;
        }
        RetryDecision::Stop
    }
}

/// The last attempt that a policy grants is always final: no status makes
/// [`RetryPolicy::decide_status`] ask for one more.
pub proof fn last_attempt_is_final(policy: RetryPolicy, status: u16, attempt: nat)
    requires
        attempt + 1 >= policy.budget(),
    ensures
        policy.decision(status, attempt) == RetryDecision::Stop,
{
}

/// A policy grants as many attempts as it says, and one where it says none. A
/// response asks for one more exactly where its status is listed and the attempt,
/// counted from zero, is not the last one granted.
pub proof fn listed_status_is_retried_while_attempts_are_left(
    policy: RetryPolicy,
    status: u16,
    attempt: nat,
)
    ensures
        policy.attempts >= 1 ==> policy.budget() == policy.attempts,
        policy.attempts == 0 ==> policy.budget() == 1,
        policy.decision(status, attempt) == RetryDecision::Retry <==> attempt + 1 < policy.attempts
            && exists|i: int|
            0 <= i < policy.on_status@.len() && #[trigger] policy.on_status@[i] == status,
        policy.decision(status, attempt) == RetryDecision::Retry || policy.decision(status, attempt)
            == RetryDecision::Stop,
{
    if policy.on_status@.contains(status) {
        let i = choose|i: int|
            0 <= i < policy.on_status@.len() && policy.on_status@[i] == status;
        assert(policy.on_status@[i] == status);
    }
}

} // verus!
