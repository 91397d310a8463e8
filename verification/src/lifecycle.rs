//! The transaction lifecycle bridge.
//!
//! One submission runs `Built` → `Pending` → `Mined`, or ends `Rejected` at
//! submission time or `TimedOut` when the polling schedule is exhausted.
//! The decisions are pure functions of the current phase and the latest
//! event; the unverified shell performs the submission and the receipt
//! queries and feeds their outcomes in.  A query that fails transiently is
//! treated as "not yet included" and retried, mirroring the connector's
//! discipline; only the exhaustion of the schedule is surfaced.

use vstd::prelude::*;
use crate::connect::RetryPolicy;
use crate::receipt::Receipt;
use crate::receipt::TxHash;

verus! {

/// The interval chosen between receipt queries; configurable per lifecycle
/// through the schedule handed to `poll_step`.
pub const DEFAULT_POLL_INTERVAL_MS: u64 = 1000;

/// The deadline chosen for a receipt to appear; two minutes covers several
/// blocks of a block-paced backend.
pub const DEFAULT_POLL_DEADLINE_MS: u64 = 120_000;

/// Where one transaction's lifecycle stands.
#[derive(Clone, Debug)]
pub enum TxPhase {
    /// Assembled and signed, not yet handed to the backend.
    Built,
    /// Submitted under a hash; so many receipt queries have found nothing.
    Pending { hash: TxHash, polls: u64 },
    /// The receipt appeared: terminal success.
    Mined { receipt: Receipt },
    /// No receipt within the polling schedule: terminal and inconclusive —
    /// the transaction may still be included later.
    TimedOut { hash: TxHash },
    /// The backend refused the submission synchronously: terminal.
    Rejected,
}

/// What one receipt query came back with.
#[derive(Clone, Debug)]
pub enum PollEvent {
    /// The backend returned a receipt.
    Found(Receipt),
    /// The transaction is not yet included.
    Absent,
    /// The query itself failed; treated as "not yet included" and retried.
    QueryFailed,
}

impl TxPhase {
    /// Phases the lifecycle never leaves.
    pub open spec fn is_terminal(&self) -> bool {
        self is Mined || self is TimedOut || self is Rejected
    }

    /// Sound field widths in every phase.
    pub open spec fn wf(&self) -> bool {
        match self {
            TxPhase::Built => true,
            TxPhase::Pending { hash, polls } => hash.wf(),
            TxPhase::Mined { receipt } => receipt.wf(),
            TxPhase::TimedOut { hash } => hash.wf(),
            TxPhase::Rejected => true,
        }
    }
}

/// Sound field widths in an event.
pub open spec fn poll_event_wf(ev: PollEvent) -> bool {
    match ev {
        PollEvent::Found(receipt) => receipt.wf(),
        _ => true,
    }
}

/// A lifecycle starts `Built`.
pub fn start_lifecycle() -> (r: TxPhase)
    ensures
        r is Built,
{
    TxPhase::Built
}

/// `Built` → `Pending` under the hash the backend issued: the lifecycle
/// enters the polling loop with a fresh schedule.
pub fn on_submission_accepted(phase: TxPhase, hash: TxHash) -> (r: TxPhase)
    requires
        phase is Built,
        hash.wf(),
    ensures
        r matches TxPhase::Pending { hash: h, polls } && h@ == hash@ && polls == 0,
        r.wf(),
{
    TxPhase::Pending { hash, polls: 0 }
}

/// `Built` → `Rejected`: a synchronous refusal is surfaced at once and
/// never retried.
pub fn on_submission_rejected(phase: TxPhase) -> (r: TxPhase)
    requires
        phase is Built,
    ensures
        r is Rejected,
{
    TxPhase::Rejected
}

/// The bridge's polling transition.  Only `Pending` moves: a receipt whose
/// hash answers the submitted one is observed (`Mined`); anything else —
/// absence, a failed query, or a receipt for some other hash — consumes one
/// attempt of the schedule, and the last attempt's failure ends `TimedOut`.
pub open spec fn spec_poll_step(policy: RetryPolicy, phase: TxPhase, ev: PollEvent) -> TxPhase {
    match phase {
        TxPhase::Pending { hash, polls } => match ev {
            PollEvent::Found(receipt) => {
                if receipt.transaction_hash@ == hash@ {
                    TxPhase::Mined { receipt }
                } else if polls + 1 < policy.max_attempts {
                    TxPhase::Pending { hash, polls: (polls + 1) as u64 }
                } else {
                    TxPhase::TimedOut { hash }
                }
            },
            _ => {
                if polls + 1 < policy.max_attempts {
                    TxPhase::Pending { hash, polls: (polls + 1) as u64 }
                } else {
                    TxPhase::TimedOut { hash }
                }
            },
        },
        _ => phase,
    }
}

/// One polling step of the bridge, exactly `spec_poll_step`.
pub fn poll_step(policy: &RetryPolicy, phase: TxPhase, ev: PollEvent) -> (r: TxPhase)
    requires
        policy.wf(),
        phase.wf(),
        poll_event_wf(ev),
        phase matches TxPhase::Pending { hash, polls } ==> polls < policy.max_attempts,
    ensures
        r == spec_poll_step(*policy, phase, ev),
        r.wf(),
{
    match phase {
        TxPhase::Pending { hash, polls } => match ev {
            PollEvent::Found(receipt) => {
                if receipt.transaction_hash.equals(&hash) {
                    TxPhase::Mined { receipt }
                } else if polls + 1 < policy.max_attempts {
                    TxPhase::Pending { hash, polls: polls + 1 }
                } else {
                    TxPhase::TimedOut { hash }
                }
            },
            _ => {
                if polls + 1 < policy.max_attempts {
                    TxPhase::Pending { hash, polls: polls + 1 }
                } else {
                    TxPhase::TimedOut { hash }
                }
            },
        },
        other => other,
    }
}

/// The phase a run of poll outcomes ends in, first event first.
pub open spec fn run_poll(policy: RetryPolicy, phase: TxPhase, evs: Seq<PollEvent>) -> TxPhase
    decreases evs.len(),
{
    if evs.len() == 0 {
        phase
    } else {
        run_poll(policy, spec_poll_step(policy, phase, evs.first()), evs.skip(1))
    }
}

/// Law: a terminal phase never moves again.  In particular a receipt is
/// observed at most once per lifecycle: after `Mined` no run of further
/// events observes another, and `TimedOut` and `Rejected` are final too.
pub proof fn lemma_terminal_stable(policy: RetryPolicy, phase: TxPhase, evs: Seq<PollEvent>)
    requires
        phase.is_terminal(),
    ensures
        run_poll(policy, phase, evs) == phase,
    decreases evs.len(),
{
    if evs.len() > 0 {
        lemma_terminal_stable(policy, phase, evs.skip(1));
    }
}

/// Law: no receipt is observed before the submission transition: however
/// long a lifecycle still `Built` is polled, it observes nothing and stays
/// `Built`.
pub proof fn lemma_no_receipt_before_submission(policy: RetryPolicy, evs: Seq<PollEvent>)
    ensures
        run_poll(policy, TxPhase::Built, evs) == TxPhase::Built,
    decreases evs.len(),
{
    if evs.len() > 0 {
        lemma_no_receipt_before_submission(policy, evs.skip(1));
    }
}

/// The one hash a post-submission phase answers for.
pub open spec fn tracks_hash(phase: TxPhase, h: Seq<u8>) -> bool {
    match phase {
        TxPhase::Pending { hash, polls } => hash@ == h,
        TxPhase::Mined { receipt } => receipt.transaction_hash@ == h,
        TxPhase::TimedOut { hash } => hash@ == h,
        _ => true,
    }
}

/// Law: polling never changes which transaction is answered for — whatever
/// receipt a lifecycle submitted under `h` ever observes carries exactly
/// the hash `h`.
pub proof fn lemma_poll_keeps_hash(
    policy: RetryPolicy,
    phase: TxPhase,
    evs: Seq<PollEvent>,
    h: Seq<u8>,
)
    requires
        tracks_hash(phase, h),
    ensures
        tracks_hash(run_poll(policy, phase, evs), h),
    decreases evs.len(),
{
    if evs.len() > 0 {
        lemma_poll_keeps_hash(policy, spec_poll_step(policy, phase, evs.first()), evs.skip(1), h);
    }
}

/// Law: the wait for a receipt is bounded.  A run of fruitless polls at
/// least as long as what is left of the schedule ends `TimedOut` — the
/// bridge resolves, it does not hang.
pub proof fn lemma_poll_times_out(policy: RetryPolicy, phase: TxPhase, evs: Seq<PollEvent>)
    requires
        policy.wf(),
        phase matches TxPhase::Pending { hash, polls } && polls < policy.max_attempts
            && evs.len() + polls >= policy.max_attempts,
        forall|i: int| 0 <= i < evs.len() ==> !((#[trigger] evs[i]) is Found),
    ensures
        run_poll(policy, phase, evs) is TimedOut,
    decreases evs.len(),
{
    match phase {
        TxPhase::Pending { hash, polls } => {
            assert(!(evs[0] is Found));
            let next = spec_poll_step(policy, phase, evs.first());
            if polls + 1 < policy.max_attempts {
                assert forall|i: int| 0 <= i < evs.skip(1).len() implies !((#[trigger] evs.skip(
                    1,
                )[i]) is Found) by {
                    assert(evs.skip(1)[i] == evs[i + 1]);
                }
                lemma_poll_times_out(policy, next, evs.skip(1));
            } else {
                lemma_terminal_stable(policy, next, evs.skip(1));
            }
        },
        _ => {},
    }
}

/// Law: the first answered query observes the receipt.  If every earlier
/// query of the run was fruitless, the schedule still had attempts for
/// them, and event `k` carries a receipt for the submitted hash, the run
/// ends `Mined` with exactly that receipt.
pub proof fn lemma_poll_observes_first_receipt(
    policy: RetryPolicy,
    phase: TxPhase,
    evs: Seq<PollEvent>,
    k: int,
)
    requires
        policy.wf(),
        0 <= k < evs.len(),
        phase matches TxPhase::Pending { hash, polls } && polls + k < policy.max_attempts
            && (evs[k] matches PollEvent::Found(receipt) && receipt.transaction_hash@ == hash@),
        forall|i: int| 0 <= i < k ==> !((#[trigger] evs[i]) is Found),
    ensures
        run_poll(policy, phase, evs) matches TxPhase::Mined { receipt } && PollEvent::Found(
            receipt,
        ) == evs[k],
    decreases evs.len(),
{
    let next = spec_poll_step(policy, phase, evs.first());
    if k == 0 {
        lemma_terminal_stable(policy, next, evs.skip(1));
    } else {
        assert(!(evs[0] is Found));
        assert forall|i: int| 0 <= i < k - 1 implies !((#[trigger] evs.skip(1)[i]) is Found) by {
            assert(evs.skip(1)[i] == evs[i + 1]);
        }
        assert(evs.skip(1)[k - 1] == evs[k]);
        lemma_poll_observes_first_receipt(policy, next, evs.skip(1), k - 1);
    }
}

} // verus!
