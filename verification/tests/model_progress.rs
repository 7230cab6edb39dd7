use nexa_core::llm::{ProviderType, ReasoningEffort};
use nexa_core::model_progress::{
    continuation_controls, recovery_controls, ModelLimits, ModelProgressDeadlineAction,
    ModelProgressPolicy, ModelProgressWatchdog,
};
use nexa_core::power_mode::{ReasoningCapability, ThinkingBudgetCapability};
use nexa_core::route::{prompt_section_for_route, route_pack_for_route, AgentRouteKind};

fn levels(values: &[&str]) -> Vec<String> {
    values.iter().map(|v| v.to_string()).collect()
}

/// Catalog reasoning capabilities of the models these tests use.
fn reasoning(provider: ProviderType, model: &str) -> Option<ReasoningCapability> {
    match (provider, model) {
        (ProviderType::Qwen, "qwen3.8-max") => Some(ReasoningCapability {
            effort_levels: levels(&["low", "medium", "high", "max"]),
            thinking_budget: Some(ThinkingBudgetCapability {
                enabled: true,
                min_tokens: Some(1_024),
                max_tokens: Some(81_920),
                default_tokens: None,
                allow_zero: None,
            }),
            effort_budget_exclusive: true,
            mode: None,
            default_effort: None,
        }),
        (ProviderType::Moonshot, "kimi-k3") => Some(ReasoningCapability {
            effort_levels: levels(&["low", "high"]),
            thinking_budget: None,
            effort_budget_exclusive: false,
            mode: Some("always".to_string()),
            default_effort: Some("high".to_string()),
        }),
        (ProviderType::DeepSeek, "deepseek-v4") => Some(ReasoningCapability {
            effort_levels: levels(&["low", "high"]),
            thinking_budget: None,
            effort_budget_exclusive: false,
            mode: None,
            default_effort: None,
        }),
        (ProviderType::OpenRouter, "router-model") => Some(ReasoningCapability {
            effort_levels: levels(&["none", "low"]),
            thinking_budget: Some(ThinkingBudgetCapability {
                enabled: true,
                min_tokens: None,
                max_tokens: Some(8_000),
                default_tokens: None,
                allow_zero: Some(true),
            }),
            effort_budget_exclusive: false,
            mode: None,
            default_effort: None,
        }),
        _ => None,
    }
}

fn policy_for(provider: ProviderType, model: &str) -> ModelProgressPolicy {
    ModelProgressPolicy::for_model(
        Some(provider),
        model,
        AgentRouteKind::CodebaseOperation,
        true,
        None,
        &reasoning(provider, model),
    )
}

#[test]
fn provider_profile_changes_only_real_connection_deadlines() {
    let long_reasoner = policy_for(ProviderType::Moonshot, "kimi-k3");
    let ordinary = policy_for(ProviderType::OpenAi, "ordinary-model");
    let local = policy_for(ProviderType::Ollama, "qwen3.8-max");

    assert_eq!(long_reasoner.connect_deadline_ms, 90_000);
    assert_eq!(ordinary.connect_deadline_ms, 180_000);
    assert_eq!(local.connect_deadline_ms, 300_000);
}

#[test]
fn catalog_limits_mark_long_reasoners() {
    let p = ModelProgressPolicy::for_model(
        Some(ProviderType::OpenAi),
        "big",
        AgentRouteKind::DirectResponse,
        false,
        Some(ModelLimits { context_tokens: Some(1_000_000), max_output_tokens: None }),
        &None,
    );
    assert_eq!(p.connect_deadline_ms, 90_000);
    assert_eq!(p.hosted_tool_idle_deadline_ms, 180_000);
}

#[test]
fn recovery_controls_are_request_side_only() {
    let qwen = recovery_controls(Some(ProviderType::Qwen), &reasoning(ProviderType::Qwen, "qwen3.8-max"));
    assert_eq!(qwen.reasoning_enabled, Some(false));
    let kimi = recovery_controls(
        Some(ProviderType::Moonshot),
        &reasoning(ProviderType::Moonshot, "kimi-k3"),
    );
    assert_eq!(kimi.reasoning_enabled, Some(true));
    assert_eq!(kimi.reasoning_effort, Some(ReasoningEffort::Low));
    assert_eq!(kimi.description, "reasoning reduced to the lowest supported effort");
}

#[test]
fn recovery_and_continuation_controls_follow_the_catalog() {
    let unknown = recovery_controls(Some(ProviderType::Custom), &None);
    assert_eq!(unknown.reasoning_enabled, Some(false));
    assert_eq!(unknown.description, "reasoning disabled");
    let router = recovery_controls(
        Some(ProviderType::OpenRouter),
        &reasoning(ProviderType::OpenRouter, "router-model"),
    );
    assert_eq!(router.reasoning_effort, Some(ReasoningEffort::Disabled));
    assert_eq!(router.thinking_budget, Some(0));
    let deepseek = continuation_controls(
        Some(ProviderType::DeepSeek),
        &reasoning(ProviderType::DeepSeek, "deepseek-v4"),
    );
    assert_eq!(deepseek.reasoning_enabled, Some(true));
    assert_eq!(deepseek.reasoning_effort, Some(ReasoningEffort::Low));
    let other = continuation_controls(
        Some(ProviderType::Qwen),
        &reasoning(ProviderType::Qwen, "qwen3.8-max"),
    );
    assert_eq!(other.reasoning_enabled, Some(false));
}

fn policy() -> ModelProgressPolicy {
    ModelProgressPolicy { hosted_tool_idle_deadline_ms: 4_000, connect_deadline_ms: 3_000 }
}

#[test]
fn stream_open_removes_semantic_progress_deadlines() {
    let mut watchdog = ModelProgressWatchdog::with_policy(policy(), 10_000);
    assert_eq!(watchdog.deadline(), Some(13_000));
    watchdog.arm();
    assert_eq!(watchdog.deadline(), None);
    watchdog.observe_tool_call_progress();
    watchdog.observe_answer_progress();
    assert_eq!(watchdog.deadline(), None);
}

#[test]
fn hosted_tool_heartbeats_cannot_extend_the_absolute_side_effect_deadline() {
    let mut watchdog = ModelProgressWatchdog::with_policy(policy(), 0);
    watchdog.arm();
    watchdog.observe_hosted_tool_progress(0);
    assert_eq!(watchdog.deadline(), Some(4_000));
    watchdog.observe_hosted_tool_progress(599_000);
    assert_eq!(watchdog.deadline(), Some(600_000));
    assert_eq!(watchdog.on_deadline(), ModelProgressDeadlineAction::StopHostedTool);
    watchdog.reset_for_new_attempt(700_000);
    assert_eq!(watchdog.deadline(), Some(703_000));
    assert_eq!(watchdog.on_deadline(), ModelProgressDeadlineAction::StopConnecting);
    watchdog.complete();
    assert_eq!(watchdog.deadline(), None);
}

#[test]
fn route_names_and_sections() {
    assert_eq!(AgentRouteKind::CodebaseOperation.as_str(), "CodebaseOperation");
    let code = prompt_section_for_route(
        AgentRouteKind::CodebaseOperation,
        "Use run_shell for builds.",
        "## Tool Contract: run_shell\n- rules",
    );
    assert!(code.starts_with("## Active Routing Plan\nThis is a codebase or tooling request."));
    assert!(code.contains("line numbers before reading. Treat read_file/read_files as follow-up inspection tools for exact paths or search matches. Use run_shell for builds. Then modify"));
    assert!(code.contains("\n\n## Route Pack: Codebase and Shell Work\n"));
    assert!(code.ends_with("\n\n## Tool Contract: run_shell\n- rules"));
    let direct = prompt_section_for_route(AgentRouteKind::DirectResponse, "g", "## Tool Contract: run_shell");
    assert!(!direct.contains("## Tool Contract: run_shell"));
    assert!(route_pack_for_route(AgentRouteKind::CollectionFocused, "x")
        .starts_with("## Route Pack: Knowledge Retrieval\n- Retrieve before answering"));
}

#[test]
fn context_retry_reconnects_with_a_fresh_connect_deadline() {
    let mut watchdog = ModelProgressWatchdog::with_policy(policy(), 0);
    watchdog.arm();
    watchdog.observe_hosted_tool_progress(10);
    watchdog.reset_for_context_retry(50_000);
    assert_eq!(watchdog.deadline(), Some(53_000));
    assert_eq!(watchdog.on_deadline(), ModelProgressDeadlineAction::StopConnecting);
}
