//! HTTP status codes, and the retry and pacing rules of the HTTP client.
use vstd::prelude::*;

use reqwest::StatusCode;

verus! {

/// The text that `StatusCode` displays for `code`: the code and its reason.
pub uninterp spec fn spec_status_text(code: u16) -> Seq<char>;

/// `StatusCode::from_u16(code)` then `<StatusCode as Display>`: the number and
/// the canonical reason phrase, such as `500 Internal Server Error`. The text
/// is named by the code; the reason table is not restated here.
#[verifier::external_body]
pub(crate) fn status_text(code: u16) -> (r: String)
    requires
        100 <= code <= 999,
    ensures
        r@ == spec_status_text(code),
{
    StatusCode::from_u16(code).unwrap().to_string()
}

/// `StatusCode::from_u16(code)` then `StatusCode::is_server_error`: whether the
/// code is in the 5xx class.
#[verifier::external_body]
fn status_is_server_error(code: u16) -> (r: bool)
    requires
        100 <= code <= 999,
    ensures
        r == (500 <= code < 600),
{
    StatusCode::from_u16(code).unwrap().is_server_error()
}

/// Whether a response status calls for another attempt: too many requests,
/// or a server error.
pub fn is_retryable(status: u16) -> (r: bool)
    requires
        100 <= status <= 999,
    ensures
        r == (status == 429 || (500 <= status < 600)),
{
    status == 429 || status_is_server_error(status)
}

/// The number of attempts the client makes at most.
pub const MAX_ATTEMPTS: u32 = 5;

/// The pause before the second attempt, in milliseconds; it doubles after
/// every retry.
pub const FIRST_RETRY_DELAY_MS: u64 = 400;

/// What one attempt to send a request gave.
#[derive(Debug, Clone, Copy, PartialEq, Eq)]
pub enum SendOutcome {
    /// A response with a 2xx status.
    Success,
    /// A response with another status.
    Status(u16),
    /// No response: the request could not be completed.
    TransportError,
}

/// What the client does after an attempt.
#[derive(Debug, Clone, Copy, PartialEq, Eq)]
pub enum RetryAction {
    /// Hand the response back.
    Respond,
    /// Fail with the response's status and body.
    FailWithStatus(u16),
    /// Fail: the status calls for a retry, but the request cannot be copied.
    FailUncopiableRetry,
    /// Pause for the given milliseconds, then send the copy of the request.
    RetryAfter(u64),
    /// Pause for the given milliseconds, then fail: the request cannot be copied.
    FailAfter(u64),
    /// Fail with the transport error.
    FailTransport,
}

/// The delay before retry `attempt + 1`: 400 ms doubled `attempt` times.
pub open spec fn retry_delay(attempt: nat) -> nat
    decreases attempt,
{
    if attempt == 0 {
        FIRST_RETRY_DELAY_MS as nat
    } else {
        2 * retry_delay((attempt - 1) as nat)
    }
}

/// Where a request stands: the number of the current attempt, from 0, and the
/// pause before the next one.
#[derive(Debug, Clone, Copy)]
pub struct RetryState {
    pub attempt: u32,
    pub delay_ms: u64,
}

impl RetryState {
    /// A state that is consistent: the attempt is one the client makes, and
    /// the delay belongs to it.
    pub open spec fn wf(self) -> bool {
        self.attempt < MAX_ATTEMPTS && self.delay_ms == retry_delay(self.attempt as nat)
    }

    /// The action after an attempt with the given outcome, when the request
    /// could or could not be copied before it was sent.
    pub open spec fn spec_action(self, outcome: SendOutcome, copiable: bool) -> RetryAction {
        let last = self.attempt + 1 >= MAX_ATTEMPTS;
        match outcome {
            SendOutcome::Success => RetryAction::Respond,
            SendOutcome::Status(code) => if (code == 429 || (500 <= code < 600)) && !last {
                if copiable { RetryAction::RetryAfter(self.delay_ms) } else { RetryAction::FailUncopiableRetry }
            } else {
                RetryAction::FailWithStatus(code)
            },
            SendOutcome::TransportError => if !last {
                if copiable { RetryAction::RetryAfter(self.delay_ms) } else { RetryAction::FailAfter(self.delay_ms) }
            } else {
                RetryAction::FailTransport
            },
        }
    }

    /// The state before the first attempt.
    pub fn new() -> (s: RetryState)
        ensures
            s.wf(),
            s.attempt == 0,
            s.delay_ms == FIRST_RETRY_DELAY_MS,
    {
        RetryState { attempt: 0, delay_ms: FIRST_RETRY_DELAY_MS }
    }

    /// Decides what follows an attempt, and moves to the next attempt when it
    /// is a retry; the last attempt is never retried.
    pub fn after_attempt(&mut self, outcome: SendOutcome, copiable: bool) -> (a: RetryAction)
        requires
            old(self).wf(),
            outcome matches SendOutcome::Status(code) ==> 100 <= code <= 999,
        ensures
            a == old(self).spec_action(outcome, copiable),
            a matches RetryAction::RetryAfter(_) ==> final(self).wf() && final(self).attempt == old(self).attempt + 1
                && final(self).delay_ms == 2 * old(self).delay_ms,
            !(a matches RetryAction::RetryAfter(_)) ==> *final(self) == *old(self),
    {
        let last = self.attempt + 1 >= MAX_ATTEMPTS;
        let a = match outcome {
            SendOutcome::Success => RetryAction::Respond,
            SendOutcome::Status(code) => if is_retryable(code) && !last {
                if copiable { RetryAction::RetryAfter(self.delay_ms) } else { RetryAction::FailUncopiableRetry }
            } else {
                RetryAction::FailWithStatus(code)
            },
            SendOutcome::TransportError => if !last {
                if copiable { RetryAction::RetryAfter(self.delay_ms) } else { RetryAction::FailAfter(self.delay_ms) }
            } else {
                RetryAction::FailTransport
            },
        };
        if let RetryAction::RetryAfter(_) = a {
            proof {
                lemma_retry_delay_bound(self.attempt as nat);
                lemma_retry_delay_bound((self.attempt + 1) as nat);
            }
            self.attempt = self.attempt + 1;
            self.delay_ms = self.delay_ms * 2;
        }
        a
    }
}

proof fn lemma_retry_delay_bound(attempt: nat)
    requires
        attempt < MAX_ATTEMPTS,
    ensures
        retry_delay(attempt) <= 6400,
    decreases attempt,
{
    if attempt > 0 {
        lemma_retry_delay_bound((attempt - 1) as nat);
        reveal_with_fuel(retry_delay, 2);
        assert(retry_delay((attempt - 1) as nat) <= 3200) by {
            reveal_with_fuel(retry_delay, 5);
        }
    }
}

/// A request is sent at most `MAX_ATTEMPTS` times: from a consistent state
/// the last attempt never leads to a retry, whatever its outcome.
pub proof fn last_attempt_is_never_retried(s: RetryState, outcome: SendOutcome, copiable: bool)
    requires
        s.wf(),
        s.attempt + 1 == MAX_ATTEMPTS,
    ensures
        !(s.spec_action(outcome, copiable) matches RetryAction::RetryAfter(_)),
{
}

/// How long to wait before sending so that requests are at least
/// `min_interval` apart, when the last one was sent `elapsed` ago (none when
/// no request was sent yet). Durations in nanoseconds.
pub fn throttle_wait(elapsed: Option<u128>, min_interval: u128) -> (wait: u128)
    ensures
        wait == match elapsed {
            Some(e) => if e < min_interval { min_interval - e } else { 0 },
            None => 0,
        },
{
    match elapsed {
        Some(e) => if e < min_interval { min_interval - e } else { 0 },
        None => 0,
    }
}

} // verus!
