use prnouncer::retry::{retry_decision, simulate_send, ChatResponse, SendStep};

#[test]
fn test_rate_limited_attempt_is_retried_with_backoff() {
    assert_eq!(
        retry_decision(0, ChatResponse::RateLimited),
        SendStep::Retry { delay_ms: 1500 }
    );
    assert_eq!(
        retry_decision(2, ChatResponse::RateLimited),
        SendStep::Retry { delay_ms: 1500 }
    );
    assert_eq!(retry_decision(3, ChatResponse::RateLimited), SendStep::Conclude);
}

#[test]
fn test_other_responses_conclude_at_once() {
    assert_eq!(retry_decision(0, ChatResponse::Delivered), SendStep::Conclude);
    assert_eq!(retry_decision(0, ChatResponse::Failed), SendStep::Conclude);
}

#[test]
fn test_two_rate_limits_then_success() {
    let responses = vec![
        ChatResponse::RateLimited,
        ChatResponse::RateLimited,
        ChatResponse::Delivered,
    ];
    let report = simulate_send(&responses).unwrap();
    assert_eq!(report.delays, 2);
    assert!(report.delivered);
}

#[test]
fn test_fourth_consecutive_rate_limit_surfaces_failure() {
    let responses = vec![
        ChatResponse::RateLimited,
        ChatResponse::RateLimited,
        ChatResponse::RateLimited,
        ChatResponse::RateLimited,
    ];
    let report = simulate_send(&responses).unwrap();
    assert_eq!(report.delays, 3);
    assert!(!report.delivered);
}

#[test]
fn test_non_rate_limit_failure_is_not_retried() {
    let responses = vec![ChatResponse::Failed, ChatResponse::Delivered];
    let report = simulate_send(&responses).unwrap();
    assert_eq!(report.delays, 0);
    assert!(!report.delivered);
}
