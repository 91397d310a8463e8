//! The gateway's caller-visible failure conditions.

use vstd::prelude::*;

verus! {

/// Every failure the gateway surfaces to a caller.  Transient conditions
/// inside a retry loop are never represented here; they are retried and only
/// the loop's final outcome is reported.
#[derive(Clone, Copy, Debug, PartialEq, Eq, Structural)]
pub enum GatewayError {
    /// No connection could be established within the configured deadline.
    Unavailable,
    /// The backend synchronously refused a submitted transaction.
    SubmissionRejected,
    /// A submitted transaction's receipt did not appear within the polling
    /// deadline; the transaction may still be included later.
    TimedOut,
    /// A read query failed for a reason other than absence of the value.
    BackendError,
}

impl GatewayError {
    /// A short stable text for logs and error replies.
    pub fn describe(&self) -> (r: &'static str)
        ensures
            self is Unavailable ==> r@ == "unavailable"@,
            self is SubmissionRejected ==> r@ == "submission rejected"@,
            self is TimedOut ==> r@ == "timed out"@,
            self is BackendError ==> r@ == "backend error"@,
    {
        match self {
            GatewayError::Unavailable => "unavailable",
            GatewayError::SubmissionRejected => "submission rejected",
            GatewayError::TimedOut => "timed out",
            GatewayError::BackendError => "backend error",
        }
    }
}

} // verus!
