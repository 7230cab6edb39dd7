use nexa_core::llm::ProviderType;
use nexa_core::prompt_layout::{
    dynamic_tool_visibility_prompt, turn_scaffolding_sections, uses_implicit_prefix_cache,
    PromptLayout,
};

/// The active task plan's prompt section for the query "audit cache behavior".
fn plan_section() -> &'static str {
    "## Active Task Plan\nGoal: audit cache behavior\n- [ ] Locate the cache code\n- [ ] Verify behavior"
}

#[test]
fn deepseek_layout_keeps_replayable_tail_context() {
    let layout = PromptLayout::for_provider(Some(ProviderType::DeepSeek));

    assert!(layout.include_skill_system_prompt);
    assert!(layout.include_turn_scaffolding_system_prompts);
    assert!(layout.allow_dynamic_tool_visibility);
    assert!(layout.append_volatile_system_prompt_to_tail);
    assert!(layout.effective_dynamic_tool_visibility(true));
}

#[test]
fn exact_prefix_cache_layout_keeps_replayable_tail_context() {
    for provider_type in [
        ProviderType::OpenAi,
        ProviderType::AzureOpenAi,
        ProviderType::Qwen,
        ProviderType::OpenRouter,
    ] {
        let layout = PromptLayout::for_provider(Some(provider_type));

        assert!(layout.include_skill_system_prompt);
        assert!(layout.include_turn_scaffolding_system_prompts);
        assert!(layout.allow_dynamic_tool_visibility);
        assert!(layout.append_volatile_system_prompt_to_tail);
        assert!(layout.effective_dynamic_tool_visibility(true));
    }
}

#[test]
fn default_layout_keeps_turn_scaffolding_for_custom_providers() {
    let layout = PromptLayout::for_provider(Some(ProviderType::Custom));

    assert!(layout.include_skill_system_prompt);
    assert!(layout.include_turn_scaffolding_system_prompts);
    assert!(layout.allow_dynamic_tool_visibility);
    assert!(!layout.append_volatile_system_prompt_to_tail);
    assert!(layout.effective_dynamic_tool_visibility(true));
}

#[test]
fn deepseek_model_name_uses_prefix_cache_layout_for_compatible_routes() {
    let layout = PromptLayout::for_request(Some(ProviderType::OpenRouter), Some("deepseek/v3"));

    assert!(layout.include_skill_system_prompt);
    assert!(layout.allow_dynamic_tool_visibility);
    assert!(layout.append_volatile_system_prompt_to_tail);
}

#[test]
fn deepseek_scaffolding_sections_are_controller_state() {
    let sections = turn_scaffolding_sections(
        "## Active Routing Plan\nroute",
        plan_section(),
        true,
        PromptLayout::for_provider(Some(ProviderType::DeepSeek)),
    );

    assert_eq!(sections.len(), 3);
    assert!(sections[0].contains("Active Routing Plan"));
    assert!(sections[1].contains("Active Task Plan"));
    assert!(sections[2].contains("Dynamic Tool Discovery"));
}

#[test]
fn default_scaffolding_sections_are_controller_state() {
    let sections = turn_scaffolding_sections(
        "## Active Routing Plan\nroute",
        plan_section(),
        true,
        PromptLayout::for_provider(Some(ProviderType::Custom)),
    );

    assert_eq!(sections.len(), 3);
    assert!(sections[0].contains("Active Routing Plan"));
    assert!(sections[1].contains("Active Task Plan"));
    assert!(sections[2].contains("Dynamic Tool Discovery"));
}

#[test]
fn turn_scaffolding_sections_can_be_disabled_by_layout() {
    let mut layout = PromptLayout::for_provider(Some(ProviderType::Custom));
    layout.include_turn_scaffolding_system_prompts = false;

    let sections =
        turn_scaffolding_sections("## Active Routing Plan\nroute", plan_section(), true, layout);

    assert!(sections.is_empty());
}

#[test]
fn dynamic_tool_visibility_prompt_points_to_resident_search() {
    let prompt = dynamic_tool_visibility_prompt();

    assert!(prompt.contains("tool_search"));
    assert!(prompt.contains("resident discovery tool"));
    assert!(prompt.contains("before using a nearby substitute"));
}

#[test]
fn deepseek_match_is_case_insensitive_and_blank_route_is_dropped() {
    assert!(uses_implicit_prefix_cache(Some(ProviderType::Custom), Some("My-DeepSeek-R1")));
    assert!(!uses_implicit_prefix_cache(Some(ProviderType::Custom), Some("deep-seek")));
    assert!(!uses_implicit_prefix_cache(None, None));
    let sections = turn_scaffolding_sections(
        "  \n",
        plan_section(),
        false,
        PromptLayout::for_request(None, None),
    );
    assert_eq!(sections, vec![plan_section().to_string()]);
}
