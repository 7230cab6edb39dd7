use nexa_core::llm::{
    CompletionResponse, FinishReason, ReasoningEffort, ReasoningReplayPolicy, StreamChunk,
    ToolCallDelta, ToolCallRequest, Usage,
};
use nexa_core::model_step::{
    completion_has_semantic_output, effective_sample_replay_policy, request_reasoning_controls,
    stream_chunk_has_semantic_output, HostedToolReport, ModelStep, ModelStepAction, ModelStepEvent,
    ProviderHostedToolStatus, SampleCapture, ToolPreparation,
};
use nexa_core::error::CoreError;
use nexa_core::stream_recovery::StreamRecoveryPolicy;

#[test]
fn unknown_sample_without_reasoning_state_does_not_require_replay() {
    let tool_call = ToolCallRequest {
        id: "call-1".to_string(),
        name: "read_file".to_string(),
        arguments: r#"{"path":"README.md"}"#.to_string(),
        thought_signature: None,
    };

    assert_eq!(
        effective_sample_replay_policy(
            ReasoningReplayPolicy::Unknown,
            "",
            false,
            std::slice::from_ref(&tool_call),
        ),
        ReasoningReplayPolicy::NotRequired
    );
    assert_eq!(
        effective_sample_replay_policy(
            ReasoningReplayPolicy::Unknown,
            "visible reasoning",
            false,
            std::slice::from_ref(&tool_call),
        ),
        ReasoningReplayPolicy::Unknown
    );

    let signed_call = ToolCallRequest {
        thought_signature: Some("unverified-signature".to_string()),
        ..tool_call
    };
    assert_eq!(
        effective_sample_replay_policy(ReasoningReplayPolicy::Forbidden, "", false, &[signed_call]),
        ReasoningReplayPolicy::Forbidden
    );
}

#[test]
fn replay_payload_and_required_routes_keep_their_policy() {
    let call = ToolCallRequest {
        id: "c".to_string(),
        name: "x".to_string(),
        arguments: "{}".to_string(),
        thought_signature: Some("  ".to_string()),
    };
    assert_eq!(
        effective_sample_replay_policy(ReasoningReplayPolicy::Unknown, " ", false, std::slice::from_ref(&call)),
        ReasoningReplayPolicy::NotRequired
    );
    assert_eq!(
        effective_sample_replay_policy(ReasoningReplayPolicy::Unknown, "", true, std::slice::from_ref(&call)),
        ReasoningReplayPolicy::Unknown
    );
    assert_eq!(
        effective_sample_replay_policy(ReasoningReplayPolicy::Required, "", false, &[call]),
        ReasoningReplayPolicy::Required
    );
    assert_eq!(
        effective_sample_replay_policy(ReasoningReplayPolicy::Unknown, "", false, &[]),
        ReasoningReplayPolicy::Unknown
    );
}

fn zero_usage() -> Usage {
    Usage {
        prompt_tokens: 0,
        completion_tokens: 0,
        total_tokens: 0,
        thinking_tokens: None,
        cache_read_tokens: None,
        cache_miss_tokens: None,
        cache_creation_tokens: None,
    }
}

#[test]
fn semantic_output_detection() {
    let empty = StreamChunk {
        delta: String::new(),
        thinking_delta: Some(String::new()),
        tool_call_delta: None,
        finish_reason: None,
        usage: None,
    };
    assert!(!stream_chunk_has_semantic_output(&empty));
    let thinking = StreamChunk { thinking_delta: Some("hm".to_string()), ..empty.clone() };
    assert!(stream_chunk_has_semantic_output(&thinking));
    let response = CompletionResponse {
        content: String::new(),
        thinking: None,
        tool_calls: Some(vec![]),
        usage: zero_usage(),
        finish_reason: FinishReason::Stop,
    };
    assert!(!completion_has_semantic_output(&response));
    let answered = CompletionResponse { content: "ok".to_string(), ..response.clone() };
    assert!(completion_has_semantic_output(&answered));
}

#[test]
fn answer_only_steps_request_no_reasoning() {
    let c = request_reasoning_controls(true, false, Some(true), Some(2048), Some(ReasoningEffort::High));
    assert_eq!(c.reasoning_enabled, Some(false));
    assert_eq!(c.thinking_budget, None);
    assert_eq!(c.reasoning_effort, None);
    assert!(!c.reasoning_was_requested);

    let c = request_reasoning_controls(false, true, Some(true), Some(2048), None);
    assert_eq!(c.reasoning_enabled, Some(false));
    assert!(!c.reasoning_was_requested);
}

#[test]
fn enabled_reasoning_carries_budget_and_effort() {
    let c = request_reasoning_controls(false, false, Some(true), Some(2048), Some(ReasoningEffort::High));
    assert_eq!(c.reasoning_enabled, Some(true));
    assert_eq!(c.thinking_budget, Some(2048));
    assert_eq!(c.reasoning_effort, Some(ReasoningEffort::High));
    assert!(c.reasoning_was_requested);

    let c = request_reasoning_controls(false, false, None, Some(2048), Some(ReasoningEffort::High));
    assert_eq!(c.reasoning_enabled, None);
    assert_eq!(c.thinking_budget, None);
    assert_eq!(c.reasoning_effort, None);
    assert!(c.reasoning_was_requested);

    let c = request_reasoning_controls(false, false, Some(true), None, Some(ReasoningEffort::Disabled));
    assert!(!c.reasoning_was_requested);
}

fn chunk(delta: &str) -> StreamChunk {
    StreamChunk {
        delta: delta.to_string(),
        thinking_delta: None,
        tool_call_delta: None,
        finish_reason: None,
        usage: None,
    }
}

#[test]
fn capture_appends_chunks_to_the_turn_text() {
    let mut capture = SampleCapture::new("earlier ".to_string());
    capture.apply_chunk(chunk("hello"));
    capture.apply_chunk(StreamChunk {
        thinking_delta: Some("pondering".to_string()),
        finish_reason: Some(FinishReason::Stop),
        usage: Some(zero_usage()),
        ..chunk(" world")
    });
    assert_eq!(capture.full_content, "hello world");
    assert_eq!(capture.accumulated_content, "earlier hello world");
    assert_eq!(capture.iteration_thinking, "pondering");
    assert!(capture.answer_delta_seen);
    assert!(capture.thinking_delta_seen);
    assert_eq!(capture.finish_reason, Some(FinishReason::Stop));
    assert_eq!(capture.chunk_count, 2);
}

#[test]
fn capture_assembles_tool_call_fragments() {
    let mut capture = SampleCapture::new(String::new());
    capture.apply_chunk(StreamChunk {
        tool_call_delta: Some(ToolCallDelta {
            id: "call-1".to_string(),
            name: Some("read_file".to_string()),
            arguments_delta: "{\"path\":".to_string(),
            index: Some(0),
            thought_signature: None,
        }),
        ..chunk("")
    });
    capture.apply_chunk(StreamChunk {
        tool_call_delta: Some(ToolCallDelta {
            id: String::new(),
            name: None,
            arguments_delta: "\"a\"}".to_string(),
            index: Some(0),
            thought_signature: None,
        }),
        ..chunk("")
    });
    assert_eq!(capture.tool_calls.len(), 1);
    assert_eq!(capture.tool_calls[0].arguments, "{\"path\":\"a\"}");
    assert!(!capture.answer_delta_seen);
}

#[test]
fn reset_restores_the_turn_text() {
    let mut capture = SampleCapture::new("kept".to_string());
    capture.apply_chunk(chunk(" dropped"));
    let id = "call-1".to_string();
    capture.observe_preparing_call(&id, false, false, true);
    capture.reset_for_new_sample();
    assert_eq!(capture.accumulated_content, "kept");
    assert_eq!(capture.full_content, "");
    assert_eq!(capture.chunk_count, 0);
    assert!(capture.preparing_call_ids.is_empty());
    assert!(capture.tool_run_started_ids.is_empty());
}

#[test]
fn completion_replaces_the_streamed_sample() {
    let mut capture = SampleCapture::new("a".to_string());
    capture.apply_chunk(chunk("partial"));
    capture.apply_completion(CompletionResponse {
        content: "final".to_string(),
        thinking: Some("why".to_string()),
        tool_calls: None,
        usage: zero_usage(),
        finish_reason: FinishReason::Length,
    });
    assert_eq!(capture.accumulated_content, "afinal");
    assert_eq!(capture.full_content, "final");
    assert_eq!(capture.iteration_thinking, "why");
    assert!(capture.thinking_delta_seen);
    assert_eq!(capture.finish_reason, Some(FinishReason::Length));
    assert_eq!(capture.chunk_count, 1);
}

#[test]
fn a_named_call_is_announced_once() {
    let mut capture = SampleCapture::new(String::new());
    let id = "call-1".to_string();
    assert_eq!(capture.observe_preparing_call(&id, true, true, false), ToolPreparation::Quiet);
    assert_eq!(
        capture.observe_preparing_call(&id, false, true, false),
        ToolPreparation::Announce { run_started: true }
    );
    assert_eq!(capture.observe_preparing_call(&id, false, true, false), ToolPreparation::PreviewUpdated);
    assert_eq!(capture.observe_preparing_call(&id, false, false, false), ToolPreparation::Quiet);
    assert_eq!(capture.observe_preparing_call(&id, false, true, true), ToolPreparation::Quiet);
}

#[test]
fn hosted_tools_are_announced_before_completion() {
    let mut capture = SampleCapture::new(String::new());
    let id = "search-1".to_string();
    assert_eq!(capture.observe_hosted_tool(&id, ProviderHostedToolStatus::Running), HostedToolReport::Started);
    assert_eq!(capture.observe_hosted_tool(&id, ProviderHostedToolStatus::Running), HostedToolReport::Updated);
    assert_eq!(capture.observe_hosted_tool(&id, ProviderHostedToolStatus::Completed), HostedToolReport::Completed);
    let other = "search-2".to_string();
    assert_eq!(
        capture.observe_hosted_tool(&other, ProviderHostedToolStatus::Failed),
        HostedToolReport::StartedThenCompleted
    );
    let third = "call-3".to_string();
    assert_eq!(
        capture.observe_preparing_call(&third, false, false, false),
        ToolPreparation::Announce { run_started: true }
    );
    assert_eq!(
        capture.observe_preparing_call(&other, false, false, false),
        ToolPreparation::Announce { run_started: false }
    );
}

#[test]
fn overflow_compacts_within_budget_then_gives_up() {
    let mut step = ModelStep::new(StreamRecoveryPolicy::default(), 0, false);
    let capture = SampleCapture::new(String::new());
    let overflow = || CoreError::ContextOverflow(10, 5);
    match step.next(&capture, ModelStepEvent::ContextOverflow { error: overflow() }) {
        ModelStepAction::Compact { attempt, status_message } => {
            assert_eq!(attempt, 1);
            assert_eq!(status_message, "Context window overflow detected. Compacting history and retrying (1/2)");
        }
        other => panic!("expected compaction, got {:?}", other),
    }
    assert!(matches!(
        step.next(&capture, ModelStepEvent::ContextRecovered { recovered: true, error: overflow() }),
        ModelStepAction::Restart { reset_capture: false }
    ));
    assert_eq!(step.context_recovery_attempts, 1);
    assert!(matches!(
        step.next(&capture, ModelStepEvent::ContextOverflow { error: overflow() }),
        ModelStepAction::Compact { attempt: 2, .. }
    ));
    match step.next(&capture, ModelStepEvent::ContextOverflow { error: overflow() }) {
        ModelStepAction::Fail(f) => {
            assert_eq!(
                f.frontend_message,
                "Context compression circuit breaker opened after 2 recovery attempt(s): LLM context window exceeded: 10 tokens > 5 max"
            );
            assert_eq!(f.error, overflow());
            assert!(!f.persist_draft);
        }
        other => panic!("expected a failure, got {:?}", other),
    }
}

#[test]
fn semantic_output_resets_recovery_and_unrecovered_history_fails() {
    let mut step = ModelStep::new(StreamRecoveryPolicy::default(), 2, false);
    let capture = SampleCapture::new(String::new());
    assert!(matches!(step.next(&capture, ModelStepEvent::Output { semantic: false }), ModelStepAction::Continue));
    assert_eq!(step.context_recovery_attempts, 2);
    assert!(matches!(step.next(&capture, ModelStepEvent::Output { semantic: true }), ModelStepAction::Continue));
    assert_eq!(step.context_recovery_attempts, 0);
    assert!(matches!(
        step.next(&capture, ModelStepEvent::Completion { semantic: false, switched_to_non_streaming: true }),
        ModelStepAction::Completed
    ));
    assert!(step.force_non_streaming);
    match step.next(
        &capture,
        ModelStepEvent::ContextRecovered { recovered: false, error: CoreError::Llm("too long".to_string()) },
    ) {
        ModelStepAction::Fail(f) => {
            assert_eq!(f.frontend_message, "Context overflow could not be reduced further: too long");
            assert_eq!(f.trace_message, "too long");
        }
        other => panic!("expected a failure, got {:?}", other),
    }
}

#[test]
fn interrupted_and_cancelled_steps_keep_visible_drafts() {
    let mut step = ModelStep::new(StreamRecoveryPolicy::default(), 0, false);
    let mut capture = SampleCapture::new(String::new());
    capture.apply_chunk(chunk("partial answer"));
    match step.next(
        &capture,
        ModelStepEvent::InterruptedAfterVisibleOutput {
            user_message: "stream broke".to_string(),
            trace_message: "eof".to_string(),
        },
    ) {
        ModelStepAction::Fail(f) => {
            assert!(f.persist_draft);
            assert_eq!(f.error, CoreError::StreamIncomplete("eof".to_string()));
        }
        other => panic!("expected a failure, got {:?}", other),
    }
    match step.next(&capture, ModelStepEvent::Cancelled { message: "Stopped".to_string(), accepted: false }) {
        ModelStepAction::Fail(f) => {
            assert!(!f.persist_draft);
            assert_eq!(f.error, CoreError::Cancelled("Stopped".to_string()));
        }
        other => panic!("expected a failure, got {:?}", other),
    }
    let empty = SampleCapture::new(String::new());
    match step.next(&empty, ModelStepEvent::Cancelled { message: "Stopped".to_string(), accepted: true }) {
        ModelStepAction::Fail(f) => assert!(!f.persist_draft),
        other => panic!("expected a failure, got {:?}", other),
    }
}
