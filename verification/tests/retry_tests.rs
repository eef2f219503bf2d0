use llm_gateway::model::ApiError;
use llm_gateway::retry::AttemptOutcome;
use llm_gateway::retry::RetryConfig;
use llm_gateway::retry::RetryDecision;
use llm_gateway::retry::next_action;

fn config() -> RetryConfig {
    RetryConfig {
        max_attempts: 3,
        base_delay_ms: 250,
        retry_429: true,
        retry_5xx: true,
        retry_transport: true,
    }
}

#[test]
fn success_is_delivered() {
    let d = next_action(&config(), 1, AttemptOutcome::Success);
    assert_eq!(d, RetryDecision::Deliver);
}

#[test]
fn rate_limit_retries_after_base_delay() {
    let d = next_action(&config(), 1, AttemptOutcome::HttpStatus { status: 429 });
    assert_eq!(d, RetryDecision::RetryAfterMs { delay_ms: 250 });
}

#[test]
fn rate_limit_respects_policy_flag() {
    let mut cfg = config();
    cfg.retry_429 = false;
    let d = next_action(&cfg, 1, AttemptOutcome::HttpStatus { status: 429 });
    assert_eq!(d, RetryDecision::Fail { error: ApiError::Http { status: 429 } });
}

#[test]
fn server_error_retries_until_attempts_exhausted() {
    let d = next_action(&config(), 2, AttemptOutcome::HttpStatus { status: 503 });
    assert_eq!(d, RetryDecision::RetryAfterMs { delay_ms: 250 });
    let d = next_action(&config(), 3, AttemptOutcome::HttpStatus { status: 503 });
    assert_eq!(d, RetryDecision::Fail { error: ApiError::Http { status: 503 } });
}

#[test]
fn client_error_is_fatal_immediately() {
    let d = next_action(&config(), 1, AttemptOutcome::HttpStatus { status: 404 });
    assert_eq!(d, RetryDecision::Fail { error: ApiError::Http { status: 404 } });
}

#[test]
fn transport_failure_retries_per_policy() {
    let d = next_action(
        &config(),
        1,
        AttemptOutcome::TransportFailure { message: "reset".to_string() },
    );
    assert_eq!(d, RetryDecision::RetryAfterMs { delay_ms: 250 });

    let mut cfg = config();
    cfg.retry_transport = false;
    let d = next_action(
        &cfg,
        1,
        AttemptOutcome::TransportFailure { message: "reset".to_string() },
    );
    assert_eq!(
        d,
        RetryDecision::Fail { error: ApiError::Transport { message: "reset".to_string() } }
    );
}
