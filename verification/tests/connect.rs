use eth_gateway::connect::connect_decide;
use eth_gateway::connect::ConnectDecision;
use eth_gateway::connect::RetryPolicy;
use eth_gateway::connect::DEFAULT_CONNECT_DEADLINE_MS;
use eth_gateway::connect::DEFAULT_CONNECT_INTERVAL_MS;

/// Drive the retry schedule against a backend that answers every attempt
/// from number `avail_from` on.  Returns the final decision and the
/// milliseconds slept along the way.
fn run_connector(policy: &RetryPolicy, avail_from: Option<u64>) -> (ConnectDecision, u64) {
    let mut attempt: u64 = 0;
    let mut slept: u64 = 0;
    loop {
        let ok = match avail_from {
            Some(d) => attempt >= d,
            None => false,
        };
        match connect_decide(policy, attempt, ok) {
            ConnectDecision::Connected => return (ConnectDecision::Connected, slept),
            ConnectDecision::RetryAfterMs(ms) => {
                slept += ms;
                attempt += 1;
            }
            ConnectDecision::Unavailable => return (ConnectDecision::Unavailable, slept),
        }
    }
}

#[test]
fn connect_policy_from_deadline_exact() {
    let p = RetryPolicy::from_deadline(DEFAULT_CONNECT_DEADLINE_MS, DEFAULT_CONNECT_INTERVAL_MS);
    assert_eq!(p.interval_ms, 1000);
    assert_eq!(p.max_attempts, 30);
    // a deadline that is no multiple of the interval is covered, not cut
    let q = RetryPolicy::from_deadline(2500, 1000);
    assert_eq!(q.max_attempts, 3);
}

#[test]
fn connect_succeeds_before_deadline() {
    // a backend that comes up after 5 of the 30 seconds
    let p = RetryPolicy::from_deadline(30_000, 1000);
    let (outcome, slept) = run_connector(&p, Some(5));
    assert_eq!(outcome, ConnectDecision::Connected);
    assert_eq!(slept, 5000);
}

#[test]
fn connect_succeeds_at_once() {
    let p = RetryPolicy::from_deadline(30_000, 1000);
    let (outcome, slept) = run_connector(&p, Some(0));
    assert_eq!(outcome, ConnectDecision::Connected);
    assert_eq!(slept, 0);
}

#[test]
fn connect_gives_up_at_deadline() {
    // a backend that never comes up: Unavailable at about the deadline —
    // neither at once nor unboundedly later
    let p = RetryPolicy::from_deadline(30_000, 1000);
    let (outcome, slept) = run_connector(&p, None);
    assert_eq!(outcome, ConnectDecision::Unavailable);
    assert_eq!(slept, 29_000);
}

#[test]
fn connect_too_late_is_unavailable() {
    // available only after the deadline has passed
    let p = RetryPolicy::from_deadline(3000, 1000);
    let (outcome, _) = run_connector(&p, Some(3));
    assert_eq!(outcome, ConnectDecision::Unavailable);
}
