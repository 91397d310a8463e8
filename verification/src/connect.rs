//! Bounded fixed-interval retry discipline.
//!
//! Both waiting points of the gateway — establishing the backend connection
//! and polling for a receipt — retry at a fixed interval until a deadline.
//! The schedule and the decision taken after each attempt live here as pure,
//! verified functions; the unverified shell only performs the attempt, sleeps
//! for the returned interval, and feeds the outcome back in.

use vstd::prelude::*;
use vstd::arithmetic::div_mod::lemma_fundamental_div_mod;
use vstd::arithmetic::mul::lemma_mul_inequality;
use vstd::arithmetic::mul::lemma_mul_is_distributive_add;

verus! {

/// The interval observed between connection attempts.
pub const DEFAULT_CONNECT_INTERVAL_MS: u64 = 1000;

/// The deadline observed for establishing a connection.
pub const DEFAULT_CONNECT_DEADLINE_MS: u64 = 30_000;

/// A bounded fixed-interval retry schedule: one attempt every `interval_ms`
/// milliseconds, at most `max_attempts` attempts in all.
#[derive(Clone, Copy, Debug, PartialEq, Eq, Structural)]
pub struct RetryPolicy {
    /// Milliseconds from the start of one attempt to the start of the next.
    pub interval_ms: u64,
    /// Attempts made before the loop gives up.
    pub max_attempts: u64,
}

impl RetryPolicy {
    /// A usable schedule waits between attempts and makes at least one.
    pub open spec fn wf(self) -> bool {
        1 <= self.interval_ms && 1 <= self.max_attempts
    }

    /// The total time the schedule spans before giving up.
    pub open spec fn budget_ms(self) -> int {
        self.interval_ms * self.max_attempts
    }

    /// Build the schedule that enforces a deadline: attempts every
    /// `interval_ms` until a further attempt would start past `deadline_ms`.
    /// The time spent before giving up covers the deadline and overshoots it
    /// by less than one interval.
    pub fn from_deadline(deadline_ms: u64, interval_ms: u64) -> (r: RetryPolicy)
        requires
            1 <= interval_ms,
            1 <= deadline_ms,
        ensures
            r.wf(),
            r.interval_ms == interval_ms,
            deadline_ms <= r.budget_ms(),
            r.budget_ms() < deadline_ms + interval_ms,
    {
        let q = deadline_ms / interval_ms;
        let rem = deadline_ms % interval_ms;
        proof {
            lemma_fundamental_div_mod(deadline_ms as int, interval_ms as int);
        }
        if rem == 0 {
            let r = RetryPolicy { interval_ms, max_attempts: q };
            proof {
                if q == 0 {
                    assert(interval_ms as int * 0 == 0) by (nonlinear_arith);
                }
                assert(r.budget_ms() == deadline_ms);
            }
            r
        } else {
            proof {
                lemma_mul_inequality(1, interval_ms as int, q as int);
                assert(q < deadline_ms);
            }
            let r = RetryPolicy { interval_ms, max_attempts: q + 1 };
            proof {
                lemma_mul_is_distributive_add(interval_ms as int, q as int, 1);
                assert(r.budget_ms() == interval_ms * q + interval_ms);
            }
            r
        }
    }
}

/// What the retry loop does after one attempt's outcome is known.
#[derive(Clone, Copy, Debug, PartialEq, Eq, Structural)]
pub enum ConnectDecision {
    /// The attempt produced a live connection: hand it to the caller.
    Connected,
    /// The attempt failed and the schedule has attempts left: sleep this many
    /// milliseconds, then try again.
    RetryAfterMs(u64),
    /// The attempt failed and the schedule is exhausted: surface
    /// `GatewayError::Unavailable`.
    Unavailable,
}

/// The decision owed after attempt number `attempt` (counted from zero)
/// ended with outcome `attempt_ok`: a success is handed out at once, a
/// failure is retried silently unless it was the schedule's last attempt.
pub open spec fn spec_connect_decision(
    policy: RetryPolicy,
    attempt: nat,
    attempt_ok: bool,
) -> ConnectDecision {
    if attempt_ok {
        ConnectDecision::Connected
    } else if attempt + 1 < policy.max_attempts {
        ConnectDecision::RetryAfterMs(policy.interval_ms)
    } else {
        ConnectDecision::Unavailable
    }
}

/// One step of the connector's retry discipline.  The caller counts the
/// attempts it has made and reports each outcome; no attempt's failure is
/// surfaced, only the exhaustion of the schedule.
pub fn connect_decide(policy: &RetryPolicy, attempt: u64, attempt_ok: bool) -> (r: ConnectDecision)
    requires
        policy.wf(),
        attempt < policy.max_attempts,
    ensures
        r == spec_connect_decision(*policy, attempt as nat, attempt_ok),
{
    if attempt_ok {
        ConnectDecision::Connected
    } else if attempt + 1 < policy.max_attempts {
        ConnectDecision::RetryAfterMs(policy.interval_ms)
    } else {
        ConnectDecision::Unavailable
    }
}

/// Where the retry loop ends against a backend that answers every attempt
/// numbered `avail_from` or later and fails all earlier ones: the decisions
/// of `spec_connect_decision`, followed from attempt `attempt` until one of
/// them ends the loop.
pub open spec fn connect_run(policy: RetryPolicy, attempt: nat, avail_from: nat) -> ConnectDecision
    decreases policy.max_attempts - attempt,
    when attempt < policy.max_attempts
{
    let d = spec_connect_decision(policy, attempt, avail_from <= attempt);
    if d is RetryAfterMs {
        connect_run(policy, attempt + 1, avail_from)
    } else {
        d
    }
}

/// A backend that becomes available before the schedule is exhausted is
/// connected to: if it answers from attempt `avail_from` on and
/// `avail_from < max_attempts`, the loop started at any attempt at or before
/// `avail_from` ends `Connected`.
pub proof fn lemma_connect_succeeds(policy: RetryPolicy, attempt: nat, avail_from: nat)
    requires
        policy.wf(),
        attempt <= avail_from,
        avail_from < policy.max_attempts,
    ensures
        connect_run(policy, attempt, avail_from) == ConnectDecision::Connected,
    decreases avail_from - attempt,
{
    if attempt < avail_from {
        lemma_connect_succeeds(policy, attempt + 1, avail_from);
    }
}

/// A backend that never becomes available within the schedule is given up
/// on, not waited for forever: the loop ends `Unavailable` at its last
/// attempt, which starts within the deadline, instead of sleeping past it.
pub proof fn lemma_connect_unavailable(policy: RetryPolicy, attempt: nat, avail_from: nat)
    requires
        policy.wf(),
        attempt < policy.max_attempts,
        policy.max_attempts <= avail_from,
    ensures
        connect_run(policy, attempt, avail_from) == ConnectDecision::Unavailable,
    decreases policy.max_attempts - attempt,
{
    if attempt + 1 < policy.max_attempts {
        lemma_connect_unavailable(policy, attempt + 1, avail_from);
    }
}

} // verus!
