use seekcli::api::{parse_retry_after, LlmError};
use seekcli::resilience::{after_failure, backoff, is_retryable, RetryDecision, RetryPolicy};

fn status(code: u16, retry_after_secs: Option<u64>) -> LlmError {
    LlmError::Status { provider: "test".to_string(), status: code, retry_after_secs, body: String::new() }
}

#[test]
fn transient_failures_retry_and_client_errors_do_not() {
    assert!(is_retryable(Some(&status(429, None))), "rate limit");
    assert!(is_retryable(Some(&status(500, None))), "server error");
    assert!(is_retryable(Some(&status(503, None))), "unavailable");
    assert!(is_retryable(Some(&status(408, None))), "server-side timeout");
    assert!(is_retryable(Some(&LlmError::Transport {
        provider: "test".to_string(),
        source: "connection refused".to_string(),
    })));

    assert!(!is_retryable(Some(&status(400, None))), "bad request");
    assert!(!is_retryable(Some(&status(401, None))), "bad key");
    assert!(!is_retryable(Some(&status(404, None))), "wrong endpoint");
    assert!(!is_retryable(Some(&status(422, None))), "schema rejected");
}

#[test]
fn unclassified_errors_fail_fast_rather_than_repeat_unknown_work() {
    assert!(!is_retryable(None));
}

#[test]
fn backoff_grows_exponentially_and_is_capped() {
    let p = RetryPolicy { base_delay_ms: 100, max_delay_ms: 1_000, ..RetryPolicy::default() };
    assert_eq!(backoff(&p, 0, None), 100_000);
    assert!(backoff(&p, 1, None) >= 200_000);
    assert!(backoff(&p, 2, None) >= 400_000);
    assert_eq!(backoff(&p, 20, None), 1_000_000);
}

#[test]
fn server_retry_after_overrides_our_own_schedule() {
    let p = RetryPolicy { base_delay_ms: 100, max_delay_ms: 60_000, ..RetryPolicy::default() };
    let hint = 7_000;
    assert_eq!(backoff(&p, 0, Some(hint)), 7_000_000);
    assert_eq!(backoff(&p, 0, Some(3_600_000)), 60_000_000);
}

#[test]
fn retry_after_header_parses_delta_seconds() {
    assert_eq!(parse_retry_after(Some("12")), Some(12));
    assert_eq!(parse_retry_after(Some("Wed, 21 Oct 2026 07:28:00 GMT")), None);
    assert_eq!(parse_retry_after(None), None);
}

fn fast_policy() -> RetryPolicy {
    RetryPolicy { max_attempts: 4, base_delay_ms: 1, max_delay_ms: 5, ..RetryPolicy::default() }
}

#[test]
fn a_transient_failure_is_retried_until_it_succeeds() {
    let p = fast_policy();
    let e = status(503, None);
    assert!(matches!(after_failure(&p, 1, Some(&e)), RetryDecision::Retry { .. }));
    assert!(matches!(after_failure(&p, 2, Some(&e)), RetryDecision::Retry { .. }));
}

#[test]
fn a_client_error_is_not_retried() {
    let p = fast_policy();
    assert_eq!(after_failure(&p, 1, Some(&status(400, None))), RetryDecision::GiveUp);
}

#[test]
fn retries_stop_at_max_attempts() {
    let p = fast_policy();
    let e = status(503, None);
    assert!(matches!(after_failure(&p, 3, Some(&e)), RetryDecision::Retry { .. }));
    assert_eq!(after_failure(&p, 4, Some(&e)), RetryDecision::GiveUp);
}

#[test]
fn the_default_policy_matches_the_documented_numbers() {
    let p = RetryPolicy::default();
    assert_eq!(p.max_attempts, 4);
    assert_eq!(p.base_delay_ms, 500);
    assert_eq!(p.max_delay_ms, 30_000);
    assert_eq!(p.request_timeout_ms, 120_000);
    assert_eq!(p.stream_idle_timeout_ms, 60_000);
}

#[test]
fn a_server_hint_in_seconds_becomes_the_delay() {
    let p = fast_policy();
    let p = RetryPolicy { max_delay_ms: 60_000, ..p };
    assert_eq!(after_failure(&p, 1, Some(&status(429, Some(3)))), RetryDecision::Retry { delay_us: 3_000_000 });
}

#[test]
fn a_counter_gives_up_at_max_attempts() {
    let policy = seekcli::resilience::RetryPolicy::default();
    let err = seekcli::api::LlmError::Status {
        provider: "p".into(),
        status: 503,
        retry_after_secs: None,
        body: String::new(),
    };
    let mut c = seekcli::resilience::RetryCounter::new();
    let mut waits = 0;
    loop {
        match c.failed(&policy, Some(&err)) {
            seekcli::resilience::RetryAction::Wait { .. } => waits += 1,
            _ => break,
        }
    }
    assert_eq!(c.calls, policy.max_attempts);
    assert_eq!(waits + 1, policy.max_attempts);
    let mut ok = seekcli::resilience::RetryCounter::new();
    assert_eq!(ok.succeeded(), seekcli::resilience::RetryAction::Succeed);
    assert_eq!(ok.calls, 1);
}

#[test]
fn the_jitter_keeps_a_quarter_of_an_odd_millisecond_count() {
    let p = RetryPolicy { base_delay_ms: 101, max_delay_ms: 60_000, ..RetryPolicy::default() };
    assert_eq!(backoff(&p, 1, None), 252_500);
}
