use nexa_core::error::CoreError;
use nexa_core::stream_recovery::{
    ContextOverflowRecoveryDecision, StreamConnectRetryDecision, StreamRecoveryDecision,
    StreamRecoveryPolicy,
};

#[test]
fn reconnects_until_disconnect_retry_budget_is_used() {
    let decision = StreamRecoveryPolicy::default().decide_after_incomplete(
        false,
        0,
        false,
        "connection closed",
    );

    assert_eq!(
        decision,
        StreamRecoveryDecision::Reconnect {
            attempt: 1,
            status_message:
                "Stream interrupted; reconnecting model stream (1/2). (connection closed)"
                    .to_string(),
            reset_reason: "Stream interrupted; reconnecting model stream (1/2).".to_string(),
            delay_ms: 250,
        }
    );
}

#[test]
fn provider_retry_override_controls_connect_and_disconnect_budgets() {
    let policy = StreamRecoveryPolicy::default().with_stream_max_retries(Some(1));
    assert_eq!(policy.max_connect_retries(), 1);
    assert_eq!(policy.max_disconnect_retries(), 1);
    assert!(matches!(
        policy.decide_after_incomplete(false, 1, false, "closed"),
        StreamRecoveryDecision::GiveUp { .. }
    ));
    assert!(matches!(
        policy.decide_after_transient_error(1, "reset"),
        StreamConnectRetryDecision::GiveUp { .. }
    ));
}

#[test]
fn provider_hosted_action_irreversibly_disables_transport_replay() {
    let decision = StreamRecoveryPolicy::default().decide_after_incomplete(
        false,
        0,
        true,
        "connection closed",
    );

    assert!(matches!(
        decision,
        StreamRecoveryDecision::StopAfterReplayBarrier { ref trace_message, .. }
            if trace_message.contains("retry suppressed")
    ));
}

#[test]
fn resettable_draft_output_keeps_transport_replay_available() {
    let decision = StreamRecoveryPolicy::default().decide_after_incomplete(
        false,
        0,
        false,
        "connection closed after draft tool arguments",
    );

    assert!(matches!(
        decision,
        StreamRecoveryDecision::Reconnect { attempt: 1, .. }
    ));
}

#[test]
fn detects_context_overflow_errors_from_structured_and_provider_messages() {
    assert!(StreamRecoveryPolicy::is_context_overflow_error(
        &CoreError::ContextOverflow(10, 5)
    ));
    assert!(StreamRecoveryPolicy::is_context_overflow_error(
        &CoreError::Llm("maximum context length exceeded".to_string())
    ));
    assert!(!StreamRecoveryPolicy::is_context_overflow_error(
        &CoreError::Llm("provider refused request".to_string())
    ));
}

#[test]
fn context_overflow_compacts_until_recovery_budget_is_used() {
    let compact = StreamRecoveryPolicy::default()
        .decide_after_context_overflow(1, &CoreError::ContextOverflow(10, 5));
    let give_up = StreamRecoveryPolicy::default()
        .decide_after_context_overflow(2, &CoreError::ContextOverflow(10, 5));

    assert_eq!(
        compact,
        ContextOverflowRecoveryDecision::Compact {
            attempt: 2,
            status_message:
                "Context window overflow detected. Compacting history and retrying (2/2)"
                    .to_string(),
        }
    );
    assert_eq!(
        give_up,
        ContextOverflowRecoveryDecision::GiveUp {
            user_message:
                "Context compression circuit breaker opened after 2 recovery attempt(s): LLM context window exceeded: 10 tokens > 5 max"
                    .to_string(),
        }
    );
}

#[test]
fn rate_limit_retry_uses_retry_after_before_giving_up() {
    let retry = StreamRecoveryPolicy::default().decide_after_rate_limit(0, 7);
    let give_up = StreamRecoveryPolicy::default().decide_after_rate_limit(4, 0);

    assert_eq!(
        retry,
        StreamConnectRetryDecision::Retry {
            attempt: 1,
            delay_ms: 7000,
            status_message: "Rate limited. Retrying in 7s...".to_string(),
        }
    );
    assert_eq!(
        give_up,
        StreamConnectRetryDecision::GiveUp {
            user_message: "Rate limited after 4 retries".to_string(),
            trace_message: "rate limited".to_string(),
        }
    );
}

#[test]
fn transient_retry_uses_exponential_backoff_before_giving_up() {
    let retry = StreamRecoveryPolicy::default().decide_after_transient_error(1, "closed");
    let give_up = StreamRecoveryPolicy::default().decide_after_transient_error(4, "closed");

    assert_eq!(
        retry,
        StreamConnectRetryDecision::Retry {
            attempt: 2,
            delay_ms: 10_274,
            status_message: "Connection error. Retrying in 10s...".to_string(),
        }
    );
    assert_eq!(
        give_up,
        StreamConnectRetryDecision::GiveUp {
            user_message: "Transient error after 4 retries: closed".to_string(),
            trace_message: "Transient error after 4 retries: closed".to_string(),
        }
    );
}

#[test]
fn gives_control_back_after_disconnect_retry_budget() {
    let decision = StreamRecoveryPolicy::default().decide_after_incomplete(
        false,
        2,
        false,
        "connection closed",
    );

    assert_eq!(
        decision,
        StreamRecoveryDecision::GiveUp {
            user_message: "The model stream disconnected repeatedly. Partial output was preserved; retry when the provider connection is stable.".to_string(),
            trace_message:
                "model stream disconnected after 2 replay attempt(s): connection closed"
                    .to_string(),
        }
    );
}

#[test]
fn forced_non_streaming_does_not_create_a_blind_fallback_loop() {
    let decision = StreamRecoveryPolicy::default().decide_after_incomplete(
        true,
        0,
        false,
        "connection closed",
    );

    assert!(matches!(decision, StreamRecoveryDecision::GiveUp { .. }));
}

#[test]
fn transient_retry_backoff_is_bounded_and_jittered() {
    let policy = StreamRecoveryPolicy::default();
    let delays = (0..4)
        .map(
            |completed| match policy.decide_after_transient_error(completed, "reset") {
                StreamConnectRetryDecision::Retry { delay_ms, .. } => delay_ms,
                StreamConnectRetryDecision::GiveUp { .. } => panic!("retry budget ended early"),
            },
        )
        .collect::<Vec<_>>();

    assert_eq!(delays[0], 5_137);
    assert_eq!(delays[1], 10_274);
    assert_eq!(delays[2], 20_411);
    assert_eq!(delays[3], 40_548);
}
