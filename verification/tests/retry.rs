use influx_loadgen::error::UploadError;
use influx_loadgen::retry::backoff;
use influx_loadgen::retry::classify;
use influx_loadgen::retry::on_attempt;
use influx_loadgen::retry::AttemptOutcome;
use influx_loadgen::retry::RetryPolicy;
use influx_loadgen::retry::RetryState;
use influx_loadgen::retry::RetryStep;
use influx_loadgen::retry::TransportFailure;
use influx_loadgen::retry::Verdict;

fn status(code: u16) -> AttemptOutcome {
    AttemptOutcome::Status { code }
}

fn failed(failure: TransportFailure) -> AttemptOutcome {
    AttemptOutcome::Failed { failure, detail: "no answer".to_string() }
}

fn policy(max_attempts: u32, base_delay_ms: u64, max_delay_ms: u64) -> RetryPolicy {
    RetryPolicy { max_attempts, base_delay_ms, max_delay_ms }
}

/// Sends until a step ends the sending; `outcome_of` gives the outcome of
/// each attempt, counted from zero. Returns the last step, the number of
/// attempts and the waits in between.
fn send(policy: &RetryPolicy, outcome_of: fn(u32) -> AttemptOutcome) -> (RetryStep, u32, Vec<u64>) {
    let mut state = RetryState::new();
    let mut waits = Vec::new();
    loop {
        let outcome = outcome_of(state.attempts);
        match on_attempt(policy, &mut state, outcome) {
            RetryStep::RetryAfter { delay_ms } => waits.push(delay_ms),
            step => return (step, state.attempts, waits),
        }
    }
}

#[test]
fn status_codes_are_judged_by_their_class() {
    for code in [100u16, 200, 201, 204, 301, 304, 399, 600, 999] {
        assert_eq!(classify(&status(code)), Verdict::Success, "{code}");
    }
    for code in [429u16, 500, 502, 503, 504, 599] {
        assert_eq!(classify(&status(code)), Verdict::Retryable, "{code}");
    }
    for code in [400u16, 401, 403, 404, 409, 422, 428, 430, 499] {
        assert_eq!(classify(&status(code)), Verdict::Fatal, "{code}");
    }
}

#[test]
fn transport_failures_are_judged_by_their_kind() {
    assert_eq!(classify(&failed(TransportFailure::Connect)), Verdict::Retryable);
    assert_eq!(classify(&failed(TransportFailure::Timeout)), Verdict::Retryable);
    assert_eq!(classify(&failed(TransportFailure::Other)), Verdict::Fatal);
}

#[test]
fn service_unavailable_is_retried_at_least_once() {
    for code in [503u16, 429] {
        let mut state = RetryState::new();
        let step = on_attempt(&RetryPolicy::standard(), &mut state, status(code));
        assert_eq!(step, RetryStep::RetryAfter { delay_ms: 100 });
        assert_eq!(state.attempts, 1);
    }
}

#[test]
fn service_unavailable_then_success_is_done_after_one_retry() {
    let (step, attempts, waits) =
        send(&RetryPolicy::standard(), |n| if n == 0 { status(503) } else { status(204) });
    assert_eq!(step, RetryStep::Done);
    assert_eq!(attempts, 2);
    assert_eq!(waits, vec![100]);
}

#[test]
fn not_found_is_fatal_without_a_retry() {
    let (step, attempts, waits) = send(&RetryPolicy::standard(), |_| status(404));
    assert_eq!(step, RetryStep::GiveUp { error: UploadError::Status { code: 404 } });
    assert_eq!(attempts, 1);
    assert!(waits.is_empty());
}

#[test]
fn not_found_after_retries_is_fatal_at_once() {
    let (step, attempts, waits) =
        send(&RetryPolicy::standard(), |n| if n < 2 { status(500) } else { status(401) });
    assert_eq!(step, RetryStep::GiveUp { error: UploadError::Status { code: 401 } });
    assert_eq!(attempts, 3);
    assert_eq!(waits, vec![100, 200]);
}

#[test]
fn success_at_once_needs_no_retry() {
    let (step, attempts, waits) = send(&RetryPolicy::standard(), |_| status(200));
    assert_eq!(step, RetryStep::Done);
    assert_eq!(attempts, 1);
    assert!(waits.is_empty());
}

#[test]
fn retries_end_when_the_policy_is_exhausted() {
    let (step, attempts, waits) = send(&RetryPolicy::standard(), |_| status(503));
    assert_eq!(step, RetryStep::GiveUp { error: UploadError::RetriesExhausted { attempts: 10 } });
    assert_eq!(attempts, 10);
    assert_eq!(waits, vec![100, 200, 400, 800, 1600, 3200, 6400, 12800, 25600]);
}

#[test]
fn connection_failures_are_retried_and_other_failures_are_not() {
    let (step, attempts, waits) = send(&policy(3, 5, 20), |_| failed(TransportFailure::Connect));
    assert_eq!(step, RetryStep::GiveUp { error: UploadError::RetriesExhausted { attempts: 3 } });
    assert_eq!(attempts, 3);
    assert_eq!(waits, vec![5, 10]);
    let (step, attempts, waits) = send(&policy(3, 5, 20), |_| failed(TransportFailure::Other));
    assert_eq!(
        step,
        RetryStep::GiveUp { error: UploadError::Transport { detail: "no answer".to_string() } }
    );
    assert_eq!(attempts, 1);
    assert!(waits.is_empty());
}

#[test]
fn backoff_doubles_up_to_the_limit() {
    let p = policy(100, 100, 30_000);
    let waits: Vec<u64> = (1..=12).map(|retry| backoff(&p, retry)).collect();
    assert_eq!(
        waits,
        vec![100, 200, 400, 800, 1600, 3200, 6400, 12800, 25600, 30_000, 30_000, 30_000]
    );
    assert_eq!(backoff(&p, 0), 100);
    assert_eq!(backoff(&p, u32::MAX), 30_000);
}

#[test]
fn backoff_at_the_ends_of_the_range() {
    assert_eq!(backoff(&policy(5, u64::MAX, u64::MAX), 3), u64::MAX);
    assert_eq!(backoff(&policy(5, u64::MAX - 1, u64::MAX), 1), u64::MAX - 1);
    assert_eq!(backoff(&policy(5, u64::MAX - 1, u64::MAX), 2), u64::MAX);
    assert_eq!(backoff(&policy(5, 1, u64::MAX), 64), 1 << 63);
    assert_eq!(backoff(&policy(5, 1, u64::MAX), 65), u64::MAX);
    assert_eq!(backoff(&policy(5, 7, 7), 9), 7);
    assert_eq!(backoff(&policy(5, 9, 7), 1), 7);
    assert_eq!(backoff(&policy(5, 0, 7), 1_000_000), 0);
    assert_eq!(backoff(&policy(5, 3, 0), 4), 0);
}

#[test]
fn policies_are_made_only_from_sound_limits() {
    assert_eq!(RetryPolicy::new(2, 1, 1), Some(policy(2, 1, 1)));
    assert_eq!(RetryPolicy::new(10, 100, 30_000), Some(RetryPolicy::standard()));
    assert_eq!(RetryPolicy::new(1, 100, 30_000), None);
    assert_eq!(RetryPolicy::new(0, 100, 30_000), None);
    assert_eq!(RetryPolicy::new(5, 0, 30_000), None);
    assert_eq!(RetryPolicy::new(5, 200, 100), None);
}

#[test]
fn attempts_are_counted_without_overflow() {
    let mut state = RetryState { attempts: u32::MAX - 1 };
    let p = policy(u32::MAX, 1, 2);
    assert_eq!(
        on_attempt(&p, &mut state, status(500)),
        RetryStep::GiveUp { error: UploadError::RetriesExhausted { attempts: u32::MAX } }
    );
    assert_eq!(state.attempts, u32::MAX);
    assert_eq!(
        on_attempt(&p, &mut state, status(500)),
        RetryStep::GiveUp { error: UploadError::RetriesExhausted { attempts: u32::MAX } }
    );
    assert_eq!(state.attempts, u32::MAX);
    assert_eq!(on_attempt(&p, &mut state, status(200)), RetryStep::Done);
}
