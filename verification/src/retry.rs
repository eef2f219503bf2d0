//! Retry policy and the decision function of the retry/telemetry
//! executor.
//!
//! The executor loop itself performs transport calls and sleeps, so it
//! lives outside the library; every decision it takes — return, retry
//! after the base delay, or fail with a typed error — is computed here.

use vstd::prelude::*;
use crate::model::ApiError;
use crate::model::ApiErrorV;

verus! {

/// Retry policy of one endpoint: how many attempts, how long between
/// them, and which outcome classes are retryable at all.
#[derive(Debug, Clone, Copy, PartialEq, Eq)]
pub struct RetryConfig {
    pub max_attempts: u64,
    pub base_delay_ms: u64,
    pub retry_429: bool,
    pub retry_5xx: bool,
    pub retry_transport: bool,
}

/// How one send attempt ended, as the transport reports it.
#[derive(Debug, Clone, PartialEq, Eq)]
pub enum AttemptOutcome {
    /// A response arrived with a success status.
    Success,
    /// A response arrived with this non-success HTTP status.
    HttpStatus { status: u16 },
    /// The transport failed before any response arrived.
    TransportFailure { message: String },
}

/// Spec-level image of an `AttemptOutcome`.
pub enum AttemptOutcomeV {
    Success,
    HttpStatus { status: u16 },
    TransportFailure { message: Seq<char> },
}

impl View for AttemptOutcome {
    type V = AttemptOutcomeV;

    open spec fn view(&self) -> AttemptOutcomeV {
        match self {
            AttemptOutcome::Success => AttemptOutcomeV::Success,
            AttemptOutcome::HttpStatus { status } => AttemptOutcomeV::HttpStatus {
                status: *status,
            },
            AttemptOutcome::TransportFailure { message } => AttemptOutcomeV::TransportFailure {
                message: message@,
            },
        }
    }
}

/// What the executor does after one attempt.
#[derive(Debug, Clone, PartialEq, Eq)]
pub enum RetryDecision {
    /// Hand the response to the caller.
    Deliver,
    /// Try again after this many milliseconds.
    RetryAfterMs { delay_ms: u64 },
    /// Surface this error; no attempts remain or the class is not
    /// retryable.
    Fail { error: ApiError },
}

/// Spec-level image of a `RetryDecision`.
pub enum RetryDecisionV {
    Deliver,
    RetryAfterMs { delay_ms: u64 },
    Fail { error: ApiErrorV },
}

impl View for RetryDecision {
    type V = RetryDecisionV;

    open spec fn view(&self) -> RetryDecisionV {
        match self {
            RetryDecision::Deliver => RetryDecisionV::Deliver,
            RetryDecision::RetryAfterMs { delay_ms } => RetryDecisionV::RetryAfterMs {
                delay_ms: *delay_ms,
            },
            RetryDecision::Fail { error } => RetryDecisionV::Fail { error: error@ },
        }
    }
}

/// Whether the policy allows retrying this outcome class at all:
/// HTTP 429 and 5xx and transport failures each have their own flag;
/// other statuses are never retried.
pub open spec fn spec_retryable(cfg: RetryConfig, outcome: AttemptOutcomeV) -> bool {
    match outcome {
        AttemptOutcomeV::Success => false,
        AttemptOutcomeV::HttpStatus { status } => if status == 429 {
            cfg.retry_429
        } else if 500 <= status <= 599 {
            cfg.retry_5xx
        } else {
            false
        },
        AttemptOutcomeV::TransportFailure { .. } => cfg.retry_transport,
    }
}

/// The error surfaced when an outcome is not retried.
pub open spec fn spec_outcome_error(outcome: AttemptOutcomeV) -> ApiErrorV {
    match outcome {
        AttemptOutcomeV::Success => ApiErrorV::Http { status: 0 },
        AttemptOutcomeV::HttpStatus { status } => ApiErrorV::Http { status },
        AttemptOutcomeV::TransportFailure { message } => ApiErrorV::Transport { message },
    }
}

/// The executor's decision after the `attempt`-th attempt (1-based)
/// ended with `outcome`: deliver a success; retry a retryable class
/// while attempts remain, after the configured base delay; otherwise
/// fail with the outcome's error.
pub open spec fn spec_next_action(
    cfg: RetryConfig,
    attempt: u64,
    outcome: AttemptOutcomeV,
) -> RetryDecisionV {
    match outcome {
        AttemptOutcomeV::Success => RetryDecisionV::Deliver,
        _ => if spec_retryable(cfg, outcome) && attempt < cfg.max_attempts {
            RetryDecisionV::RetryAfterMs { delay_ms: cfg.base_delay_ms }
        } else {
            RetryDecisionV::Fail { error: spec_outcome_error(outcome) }
        },
    }
}

/// Decides what the executor does after one attempt.
pub fn next_action(cfg: &RetryConfig, attempt: u64, outcome: AttemptOutcome) -> (r: RetryDecision)
    ensures
        r@ == spec_next_action(*cfg, attempt, outcome@),
{
    match outcome {
        AttemptOutcome::Success => RetryDecision::Deliver,
        AttemptOutcome::HttpStatus { status } => {
            let retryable = if status == 429 {
                cfg.retry_429
            } else if 500 <= status && status <= 599 {
                cfg.retry_5xx
            } else {
                false
            };
            if retryable && attempt < cfg.max_attempts {
                RetryDecision::RetryAfterMs { delay_ms: cfg.base_delay_ms }
            } else {
                RetryDecision::Fail { error: ApiError::Http { status } }
            }
        },
        AttemptOutcome::TransportFailure { message } => {
            if cfg.retry_transport && attempt < cfg.max_attempts {
                RetryDecision::RetryAfterMs { delay_ms: cfg.base_delay_ms }
            } else {
                RetryDecision::Fail { error: ApiError::Transport { message } }
            }
        },
    }
}

} // verus!
