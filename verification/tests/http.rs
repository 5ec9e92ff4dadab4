use clockify_to_solidtime::http::{is_retryable, throttle_wait, RetryAction, RetryState, SendOutcome};

#[test]
fn retries_too_many_requests_and_server_errors_only() {
    assert!(is_retryable(429));
    assert!(is_retryable(500));
    assert!(is_retryable(599));
    assert!(!is_retryable(600));
    assert!(!is_retryable(404));
    assert!(!is_retryable(200));
}

#[test]
fn retry_delays_double_and_the_fifth_attempt_is_final() {
    let mut state = RetryState::new();
    let mut delays = Vec::new();
    loop {
        match state.after_attempt(SendOutcome::Status(503), true) {
            RetryAction::RetryAfter(ms) => delays.push(ms),
            other => {
                assert_eq!(other, RetryAction::FailWithStatus(503));
                break;
            }
        }
    }
    assert_eq!(delays, vec![400, 800, 1600, 3200]);
}

#[test]
fn outcomes_map_to_actions() {
    let mut state = RetryState::new();
    assert_eq!(state.after_attempt(SendOutcome::Success, true), RetryAction::Respond);
    assert_eq!(state.after_attempt(SendOutcome::Status(404), true), RetryAction::FailWithStatus(404));
    assert_eq!(state.after_attempt(SendOutcome::Status(429), false), RetryAction::FailUncopiableRetry);
    assert_eq!(state.after_attempt(SendOutcome::TransportError, false), RetryAction::FailAfter(400));
    assert_eq!(state.after_attempt(SendOutcome::TransportError, true), RetryAction::RetryAfter(400));
    assert_eq!(state.attempt, 1);
    assert_eq!(state.delay_ms, 800);
}

#[test]
fn throttle_waits_out_the_minimum_interval() {
    assert_eq!(throttle_wait(None, 110), 0);
    assert_eq!(throttle_wait(Some(10), 110), 100);
    assert_eq!(throttle_wait(Some(110), 110), 0);
    assert_eq!(throttle_wait(Some(500), 110), 0);
}
