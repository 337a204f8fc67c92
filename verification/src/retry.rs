//! Retry decisions: how one attempt is judged, how long to wait before the
//! next, and when to give up.
//!
//! The sender itself lives with the caller. After each attempt it hands the
//! outcome to [`on_attempt`] and does what the step says: stop, wait and
//! send the same request again, or give the batch up.

use crate::error::UploadError;
use vstd::prelude::*;

verus! {

/// A failure of the transport, below HTTP.
#[derive(Clone, Copy, Debug, PartialEq, Eq)]
pub enum TransportFailure {
    /// The connection could not be made or broke.
    Connect,
    /// The attempt ran out of time.
    Timeout,
    /// Anything else: a failure that sending again would meet again.
    Other,
}

/// What one attempt to send a request came to.
#[derive(Clone, Debug, PartialEq, Eq)]
pub enum AttemptOutcome {
    /// The endpoint answered with this status code.
    Status { code: u16 },
    /// No answer came.
    Failed { failure: TransportFailure, detail: String },
}

/// How an attempt is judged.
#[derive(Clone, Copy, Debug, PartialEq, Eq)]
pub enum Verdict {
    /// The batch is acknowledged.
    Success,
    /// The failure may pass: the same request is worth sending again.
    Retryable,
    /// The failure will not pass: the batch is given up.
    Fatal,
}

/// The verdict on a status code: 429 and the server errors 500 to 599 are
/// retryable, the other client errors 400 to 499 are fatal, and every other
/// code is a success.
pub open spec fn status_verdict(code: u16) -> Verdict {
    if code == 429 || 500 <= code <= 599 {
        Verdict::Retryable
    } else if 400 <= code <= 499 {
        Verdict::Fatal
    } else {
        Verdict::Success
    }
}

/// The verdict on a transport failure: a failed connection and a timeout are
/// retryable, anything else is fatal.
pub open spec fn failure_verdict(failure: TransportFailure) -> Verdict {
    match failure {
        TransportFailure::Connect => Verdict::Retryable,
        TransportFailure::Timeout => Verdict::Retryable,
        TransportFailure::Other => Verdict::Fatal,
    }
}

/// The verdict on an attempt.
pub open spec fn verdict(outcome: AttemptOutcome) -> Verdict {
    match outcome {
        AttemptOutcome::Status { code } => status_verdict(code),
        AttemptOutcome::Failed { failure, .. } => failure_verdict(failure),
    }
}

/// Judges one attempt.
pub fn classify(outcome: &AttemptOutcome) -> (v: Verdict)
    ensures
        v == verdict(*outcome),
{
    match outcome {
        AttemptOutcome::Status { code } => {
            let code: u16 = *code;
            if code == 429 || (500 <= code && code <= 599) {
                Verdict::Retryable
            } else if 400 <= code && code <= 499 {
                Verdict::Fatal
            } else {
                Verdict::Success
            }
        },
        AttemptOutcome::Failed { failure, .. } => match failure {
            TransportFailure::Connect => Verdict::Retryable,
            TransportFailure::Timeout => Verdict::Retryable,
            TransportFailure::Other => Verdict::Fatal,
        },
    }
}

/// How often a request is sent at most, and how long to wait in between.
#[derive(Clone, Copy, Debug, PartialEq, Eq)]
pub struct RetryPolicy {
    /// The number of attempts after which a batch is given up.
    pub max_attempts: u32,
    /// The wait before the first retry, in milliseconds.
    pub base_delay_ms: u64,
    /// The longest wait before any retry, in milliseconds.
    pub max_delay_ms: u64,
}

impl RetryPolicy {
    /// A policy that retries at least once, never at once, and never waits
    /// longer than its limit.
    pub open spec fn wf(self) -> bool {
        &&& self.max_attempts >= 2
        &&& 1 <= self.base_delay_ms <= self.max_delay_ms
    }

    /// The policy with these limits, where they make one.
    pub fn new(max_attempts: u32, base_delay_ms: u64, max_delay_ms: u64) -> (r: Option<RetryPolicy>)
        ensures
            r matches Some(policy) ==> policy == (RetryPolicy {
                max_attempts,
                base_delay_ms,
                max_delay_ms,
            }) && policy.wf(),
            r is None ==> !(RetryPolicy { max_attempts, base_delay_ms, max_delay_ms }).wf(),
    {
        if max_attempts >= 2 && 1 <= base_delay_ms && base_delay_ms <= max_delay_ms {
            Some(RetryPolicy { max_attempts, base_delay_ms, max_delay_ms })
        } else {
            None
        }
    }

    /// Ten attempts, the first retry after a tenth of a second, no wait
    /// longer than thirty seconds.
    pub fn standard() -> (policy: RetryPolicy)
        ensures
            policy == (RetryPolicy { max_attempts: 10, base_delay_ms: 100, max_delay_ms: 30_000 }),
            policy.wf(),
    {
        RetryPolicy { max_attempts: 10, base_delay_ms: 100, max_delay_ms: 30_000 }
    }
}

/// The smaller of two numbers.
pub open spec fn least(a: nat, b: nat) -> nat {
    if a <= b {
        a
    } else {
        b
    }
}

/// The wait before retry number `retry`, counted from one, in milliseconds:
/// the base delay before the first, then twice the wait before, and never
/// more than the limit.
pub open spec fn backoff_ms(policy: RetryPolicy, retry: nat) -> nat
    decreases retry,
{
    if retry <= 1 {
        least(policy.base_delay_ms as nat, policy.max_delay_ms as nat)
    } else {
        least(2 * backoff_ms(policy, (retry - 1) as nat), policy.max_delay_ms as nat)
    }
}

/// Once the wait has reached the limit or is zero, it stays there.
pub proof fn lemma_backoff_settles(policy: RetryPolicy, from: nat, to: nat)
    requires
        1 <= from <= to,
        backoff_ms(policy, from) == policy.max_delay_ms || backoff_ms(policy, from) == 0,
    ensures
        backoff_ms(policy, to) == backoff_ms(policy, from),
    decreases to - from,
{
    if from < to {
        lemma_backoff_settles(policy, from, (to - 1) as nat);
    }
}

/// The wait before retry number `retry`, counted from one.
pub fn backoff(policy: &RetryPolicy, retry: u32) -> (delay_ms: u64)
    ensures
        delay_ms == backoff_ms(*policy, retry as nat),
{
    let limit: u64 = policy.max_delay_ms;
    let mut delay: u64 = if policy.base_delay_ms <= limit {
        policy.base_delay_ms
    } else {
        limit
    };
    let mut k: u32 = 1;
    while k < retry && 0 < delay && delay < limit
        invariant
            1 <= k,
            k <= retry || k == 1,
            limit == policy.max_delay_ms,
            delay == backoff_ms(*policy, k as nat),
            delay <= limit,
        decreases retry - k,
    {
        delay = if delay > limit - delay {
            limit
        } else {
            delay + delay
        };
        k = k + 1;
    }
    proof {
        if k < retry {
            lemma_backoff_settles(*policy, k as nat, retry as nat);
        } else if retry == 0 {
            assert(backoff_ms(*policy, 0) == backoff_ms(*policy, 1));
        }
    }
    delay
}

/// How far the sending of one request has come.
#[derive(Clone, Copy, Debug, PartialEq, Eq)]
pub struct RetryState {
    /// The number of attempts made so far.
    pub attempts: u32,
}

/// What the sender does after an attempt.
#[derive(Clone, Debug, PartialEq, Eq)]
pub enum RetryStep {
    /// The batch is acknowledged: nothing more to send.
    Done,
    /// Wait this long, then send the same request again.
    RetryAfter { delay_ms: u64 },
    /// Send no more: the batch has failed for good.
    GiveUp { error: UploadError },
}

/// The error that a fatal attempt surfaces as.
pub open spec fn fatal_error(outcome: AttemptOutcome) -> UploadError {
    match outcome {
        AttemptOutcome::Status { code } => UploadError::Status { code },
        AttemptOutcome::Failed { detail, .. } => UploadError::Transport { detail },
    }
}

/// The number of attempts made once one more is made after `made`.
pub open spec fn attempts_after(made: u32) -> u32 {
    if made < u32::MAX {
        (made + 1) as u32
    } else {
        made
    }
}

/// The step that follows an attempt with this outcome, `made` attempts
/// having been made before it.
pub open spec fn step_after(policy: RetryPolicy, made: u32, outcome: AttemptOutcome) -> RetryStep {
    match verdict(outcome) {
        Verdict::Success => RetryStep::Done,
        Verdict::Fatal => RetryStep::GiveUp { error: fatal_error(outcome) },
        Verdict::Retryable => if attempts_after(made) < policy.max_attempts {
            RetryStep::RetryAfter {
                delay_ms: backoff_ms(policy, attempts_after(made) as nat) as u64,
            }
        } else {
            RetryStep::GiveUp {
                error: UploadError::RetriesExhausted { attempts: attempts_after(made) },
            }
        },
    }
}

impl RetryState {
    /// The state before the first attempt.
    pub fn new() -> (state: RetryState)
        ensures
            state.attempts == 0,
    {
        RetryState { attempts: 0 }
    }
}

/// Records one attempt and says what the sender does next.
///
/// A success ends the sending. A fatal outcome ends it with the error of
/// that outcome. A retryable outcome asks for another attempt after the
/// backoff delay, unless this was the last attempt that the policy allows:
/// then the batch is given up, its retries exhausted.
pub fn on_attempt(policy: &RetryPolicy, state: &mut RetryState, outcome: AttemptOutcome) -> (step:
    RetryStep)
    ensures
        final(state).attempts == attempts_after(old(state).attempts),
        step == step_after(*policy, old(state).attempts, outcome),
{
    let made: u32 = if state.attempts < u32::MAX {
        state.attempts + 1
    } else {
        state.attempts
    };
    state.attempts = made;
    match classify(&outcome) {
        Verdict::Success => RetryStep::Done,
        Verdict::Fatal => match outcome {
            AttemptOutcome::Status { code } => RetryStep::GiveUp {
                error: UploadError::Status { code },
            },
            AttemptOutcome::Failed { failure: _, detail } => RetryStep::GiveUp {
                error: UploadError::Transport { detail },
            },
        },
        Verdict::Retryable => if made < policy.max_attempts {
            RetryStep::RetryAfter { delay_ms: backoff(policy, made) }
        } else {
            RetryStep::GiveUp { error: UploadError::RetriesExhausted { attempts: made } }
        },
    }
}

/// A retryable outcome of the first attempt is followed by a retry: a
/// policy never gives up before it has tried again once.
pub proof fn lemma_first_failure_is_retried(policy: RetryPolicy, outcome: AttemptOutcome)
    requires
        policy.wf(),
        verdict(outcome) == Verdict::Retryable,
    ensures
        step_after(policy, 0, outcome) == (RetryStep::RetryAfter {
            delay_ms: policy.base_delay_ms,
        }),
{
}

/// A fatal outcome is never followed by a retry, whatever the policy and
/// however few attempts were made: the sending ends with the error of that
/// outcome.
pub proof fn lemma_fatal_is_not_retried(policy: RetryPolicy, made: u32, outcome: AttemptOutcome)
    requires
        verdict(outcome) == Verdict::Fatal,
    ensures
        step_after(policy, made, outcome) == (RetryStep::GiveUp { error: fatal_error(outcome) }),
{
}

/// No request is sent more often than the policy allows: a retry is asked
/// for only while fewer attempts than that have been made.
pub proof fn lemma_attempts_are_bounded(policy: RetryPolicy, made: u32, outcome: AttemptOutcome)
    ensures
        step_after(policy, made, outcome) is RetryAfter ==> made + 1 < policy.max_attempts,
{
}

/// Every wait lies between the base delay and the limit of the policy.
pub proof fn lemma_backoff_bounds(policy: RetryPolicy, retry: nat)
    requires
        policy.wf(),
    ensures
        policy.base_delay_ms <= backoff_ms(policy, retry) <= policy.max_delay_ms,
    decreases retry,
{
    if retry > 1 {
        lemma_backoff_bounds(policy, (retry - 1) as nat);
    }
}

/// No wait is shorter than the one before it.
pub proof fn lemma_backoff_grows(policy: RetryPolicy, earlier: nat, later: nat)
    requires
        earlier <= later,
    ensures
        backoff_ms(policy, earlier) <= backoff_ms(policy, later),
    decreases later,
{
    if earlier < later && later > 1 {
        lemma_backoff_grows(policy, earlier, (later - 1) as nat);
    }
}

} // verus!
