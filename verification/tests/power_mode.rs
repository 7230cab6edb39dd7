use nexa_core::llm::{ProviderType, ReasoningEffort};
use nexa_core::power_mode::{
    resolve_agent_power_policy, AgentPowerMode, AgentPowerPolicyInput, ModelCapabilities,
    ReasoningCapability, ThinkingBudgetCapability, NEXUS_MAX_CALLS_PER_TURN, NEXUS_MAX_PARALLEL,
    NEXUS_TOKEN_BUDGET,
};

fn levels(values: &[&str]) -> Vec<String> {
    values.iter().map(|v| v.to_string()).collect()
}

/// Catalog entries of the models these tests resolve.
fn catalog(provider_type: ProviderType, model: &str) -> Option<ModelCapabilities> {
    match (provider_type, model) {
        (ProviderType::OpenAi, "gpt-5.6") => Some(ModelCapabilities {
            reasoning: Some(ReasoningCapability {
                effort_levels: levels(&["none", "low", "medium", "high", "xhigh", "max"]),
                thinking_budget: None,
                effort_budget_exclusive: false,
                mode: None,
                default_effort: Some("medium".to_string()),
            }),
        }),
        (ProviderType::Qwen, "qwen3.8-max-preview") => Some(ModelCapabilities {
            reasoning: Some(ReasoningCapability {
                effort_levels: levels(&["low", "medium", "high", "max"]),
                thinking_budget: Some(ThinkingBudgetCapability {
                    enabled: true,
                    min_tokens: Some(1_024),
                    max_tokens: Some(81_920),
                    default_tokens: None,
                    allow_zero: None,
                }),
                effort_budget_exclusive: true,
                mode: None,
                default_effort: None,
            }),
        }),
        (ProviderType::AlibabaModelStudio, "kimi-k2.6") => Some(ModelCapabilities {
            reasoning: Some(ReasoningCapability {
                effort_levels: Vec::new(),
                thinking_budget: None,
                effort_budget_exclusive: false,
                mode: Some("always".to_string()),
                default_effort: None,
            }),
        }),
        _ => None,
    }
}

fn input(mode: AgentPowerMode, provider_type: ProviderType, model: &str) -> AgentPowerPolicyInput<'_> {
    AgentPowerPolicyInput {
        mode,
        provider_type,
        model,
        capabilities: catalog(provider_type, model),
        max_iterations: 20,
        reasoning_enabled: None,
        thinking_budget: None,
        reasoning_effort: Some(ReasoningEffort::Low),
        subagent_max_parallel: Some(2),
        subagent_max_calls_per_turn: Some(3),
        subagent_token_budget: Some(12_000),
    }
}

#[test]
fn wire_values_are_explicit_and_safe_by_default() {
    assert_eq!(
        AgentPowerMode::from_wire(None).unwrap(),
        AgentPowerMode::Standard
    );
    assert_eq!(
        AgentPowerMode::from_wire(Some("nexus")).unwrap(),
        AgentPowerMode::Nexus
    );
    assert!(AgentPowerMode::from_wire(Some("ultra")).is_err());
}

#[test]
fn nexus_uses_the_catalogs_strongest_supported_effort() {
    let policy = resolve_agent_power_policy(input(
        AgentPowerMode::Nexus,
        ProviderType::OpenAi,
        "gpt-5.6",
    ));

    assert_eq!(policy.reasoning_effort, Some(ReasoningEffort::Max));
    assert_eq!(policy.subagent_max_parallel, Some(NEXUS_MAX_PARALLEL));
    assert_eq!(
        policy.subagent_max_calls_per_turn,
        Some(NEXUS_MAX_CALLS_PER_TURN)
    );
    assert_eq!(policy.subagent_token_budget, Some(NEXUS_TOKEN_BUDGET));
    assert_eq!(policy.verification_reserve_percent, Some(25));
    assert!(policy.model_capability_resolved);
    let prompt = policy.prompt_section();
    assert!(prompt.contains("required Nexus behavior"));
    assert!(prompt.contains("spawn_subagent_batch"));
    assert!(prompt.contains("3-6 focused subagents"));
    assert!(prompt.contains("judge_subagent_results"));
}

#[test]
fn nexus_respects_exclusive_reasoning_controls() {
    let policy = resolve_agent_power_policy(input(
        AgentPowerMode::Nexus,
        ProviderType::Qwen,
        "qwen3.8-max-preview",
    ));

    assert_eq!(policy.reasoning_effort, Some(ReasoningEffort::Max));
    assert_eq!(policy.thinking_budget, None);
    assert_eq!(policy.reasoning_enabled, Some(true));
}

#[test]
fn nexus_does_not_invent_effort_or_budget_for_budget_only_models() {
    let policy = resolve_agent_power_policy(input(
        AgentPowerMode::Nexus,
        ProviderType::AlibabaModelStudio,
        "kimi-k2.6",
    ));

    assert_eq!(policy.reasoning_effort, None);
    assert_eq!(policy.thinking_budget, None);
    assert_eq!(policy.reasoning_enabled, Some(true));
    assert!(policy.model_capability_resolved);
}

#[test]
fn unknown_models_preserve_reasoning_controls() {
    let policy = resolve_agent_power_policy(input(
        AgentPowerMode::Nexus,
        ProviderType::OpenAi,
        "custom-unlisted-model",
    ));

    assert_eq!(policy.reasoning_effort, Some(ReasoningEffort::Low));
    assert_eq!(policy.reasoning_enabled, None);
    assert!(!policy.model_capability_resolved);
}

#[test]
fn standard_mode_preserves_the_users_configuration() {
    let policy = resolve_agent_power_policy(input(
        AgentPowerMode::Standard,
        ProviderType::OpenAi,
        "gpt-5.6",
    ));

    assert_eq!(policy.max_iterations, 20);
    assert_eq!(policy.reasoning_effort, Some(ReasoningEffort::Low));
    assert_eq!(policy.subagent_max_parallel, Some(2));
    assert_eq!(policy.verification_reserve_percent, None);
    assert!(policy.prompt_section().is_empty());
}

#[test]
fn nexus_budget_models_take_the_catalog_budget_above_the_floor() {
    let mut request = input(AgentPowerMode::Nexus, ProviderType::Anthropic, "budget-model");
    request.capabilities = Some(ModelCapabilities {
        reasoning: Some(ReasoningCapability {
            effort_levels: Vec::new(),
            thinking_budget: Some(ThinkingBudgetCapability {
                enabled: true,
                min_tokens: Some(50_000),
                max_tokens: None,
                default_tokens: Some(32_000),
                allow_zero: None,
            }),
            effort_budget_exclusive: false,
            mode: None,
            default_effort: None,
        }),
    });
    request.thinking_budget = Some(8_000);
    let policy = resolve_agent_power_policy(request);
    assert_eq!(policy.thinking_budget, Some(50_000));
    assert_eq!(policy.max_iterations, 48);
    assert_eq!(policy.reasoning_effort, None);
}
