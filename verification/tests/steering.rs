use nexa_core::agent::AgentSteeringMessage;
use nexa_core::context::estimate_tool_tokens;
use nexa_core::llm::{ProviderType, ReasoningEffort, ReasoningReplayPolicy};
use nexa_core::steering::{
    accepted_steering_texts, reasoning_content_for_iteration, reasoning_replay_policy_for_request,
    steering_status_text, MISSING_REASONING_CONTENT_PLACEHOLDER,
};

#[test]
fn steering_status_counts_messages() {
    assert_eq!(
        steering_status_text(1),
        "Steering message received; applying it to the next agent step."
    );
    assert_eq!(
        steering_status_text(3),
        "3 steering messages received; applying them to the next agent step."
    );
}

#[test]
fn blank_steering_without_parts_is_dropped() {
    let mut blank = AgentSteeringMessage::text("   ".to_string());
    blank.parts.clear();
    let messages = vec![
        AgentSteeringMessage::text("  focus on tests ".to_string()),
        blank,
        AgentSteeringMessage::text("  ".to_string()),
    ];
    assert_eq!(accepted_steering_texts(&messages), vec!["focus on tests".to_string(), String::new()]);
}

#[test]
fn reasoning_placeholder_only_for_deepseek_tool_steps() {
    assert_eq!(
        reasoning_content_for_iteration("thinking", false, None, None),
        Some("thinking".to_string())
    );
    assert_eq!(
        reasoning_content_for_iteration("", true, Some(true), Some(ProviderType::DeepSeek)),
        Some(MISSING_REASONING_CONTENT_PLACEHOLDER.to_string())
    );
    assert_eq!(reasoning_content_for_iteration("", true, None, Some(ProviderType::DeepSeek)), None);
    assert_eq!(reasoning_content_for_iteration("", false, Some(true), Some(ProviderType::DeepSeek)), None);
}

#[test]
fn replay_policy_defers_to_the_provider_unless_reasoning_is_off() {
    let provider = ReasoningReplayPolicy::Required;
    assert_eq!(
        reasoning_replay_policy_for_request(true, None, None, provider),
        ReasoningReplayPolicy::NotRequired
    );
    assert_eq!(
        reasoning_replay_policy_for_request(false, Some(false), None, provider),
        ReasoningReplayPolicy::NotRequired
    );
    assert_eq!(
        reasoning_replay_policy_for_request(false, None, Some(ReasoningEffort::Disabled), provider),
        ReasoningReplayPolicy::NotRequired
    );
    assert_eq!(
        reasoning_replay_policy_for_request(false, Some(true), Some(ReasoningEffort::High), provider),
        ReasoningReplayPolicy::Required
    );
}

#[test]
fn default_model_tool_tokens_add_ten_per_definition() {
    assert_eq!(estimate_tool_tokens(&[5, 7]), 32);
    assert_eq!(estimate_tool_tokens(&[]), 0);
}
