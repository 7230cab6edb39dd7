use nexa_core::llm::ProviderType;
use nexa_core::model_progress::ModelLimits;
use nexa_core::output_budget::{
    is_deepseek_model_family, resolved_max_response_tokens, resolved_output_budget,
    ContextWindowResolution, OutputBudgetAuthority, OutputBudgetConfig,
};

fn config(provider: Option<ProviderType>) -> OutputBudgetConfig {
    OutputBudgetConfig {
        max_tokens: None,
        provider_type: provider,
        context_window: None,
        catalog_limits_authoritative: None,
        context_window_resolution: None,
    }
}

#[test]
fn deepseek_family_is_recognized_by_path_segment() {
    assert!(is_deepseek_model_family("deepseek-chat"));
    assert!(is_deepseek_model_family("  DeepSeek/V3 "));
    assert!(is_deepseek_model_family("vendor/deepseek.r1"));
    assert!(is_deepseek_model_family("deepseek_coder"));
    assert!(!is_deepseek_model_family("my-deepseek-chat"));
    assert!(!is_deepseek_model_family("deepseeker"));
    assert!(!is_deepseek_model_family("gpt-4o"));
}

#[test]
fn automatic_budget_uses_the_model_aware_reserve() {
    let plan = resolved_output_budget(&config(Some(ProviderType::OpenAi)), "gpt-4o", None);
    assert_eq!(plan.requested_tokens, 16_384);
    assert_eq!(plan.effective_tokens, 16_384);
    assert_eq!(plan.authority, OutputBudgetAuthority::AutomaticFallbackReserve);
    let deep = resolved_output_budget(&config(None), "vendor/deepseek-v4", None);
    assert_eq!(deep.requested_tokens, 32_768);
    let by_provider = resolved_output_budget(&config(Some(ProviderType::DeepSeek)), "chat", None);
    assert_eq!(by_provider.requested_tokens, 32_768);
}

#[test]
fn catalog_and_context_capacity_cap_the_budget() {
    let limits = Some(ModelLimits { context_tokens: Some(20_000), max_output_tokens: Some(8_192) });
    let plan = resolved_output_budget(&config(Some(ProviderType::OpenAi)), "gpt-4o", limits);
    assert_eq!(plan.requested_tokens, 8_192);
    assert_eq!(plan.authority, OutputBudgetAuthority::VerifiedCatalogCapability);
    assert_eq!(plan.catalog_cap, Some(8_192));
    assert_eq!(plan.context_cap, Some(10_000));
    assert_eq!(plan.effective_tokens, 8_192);

    let mut explicit = config(Some(ProviderType::OpenAi));
    explicit.max_tokens = Some(50_000);
    explicit.context_window = Some(30_000);
    let plan = resolved_output_budget(&explicit, "gpt-4o", limits);
    assert_eq!(plan.authority, OutputBudgetAuthority::SavedExplicitOverride);
    assert_eq!(plan.context_cap, Some(30_000));
    assert_eq!(plan.effective_tokens, 8_192);
    assert_eq!(resolved_max_response_tokens(&explicit, "gpt-4o", None), 30_000);
}

#[test]
fn a_provider_managed_route_ignores_the_public_catalog() {
    let limits = Some(ModelLimits { context_tokens: Some(20_000), max_output_tokens: Some(8_192) });
    let mut managed = config(Some(ProviderType::Custom));
    managed.context_window_resolution = Some(ContextWindowResolution {
        catalog_authority: false,
        capacity_tokens: Some(3),
    });
    let plan = resolved_output_budget(&managed, "gpt-4o", limits);
    assert_eq!(plan.catalog_cap, None);
    assert_eq!(plan.authority, OutputBudgetAuthority::AutomaticFallbackReserve);
    assert_eq!(plan.context_cap, Some(1));
    assert_eq!(plan.effective_tokens, 1);

    let huge = Some(ModelLimits { context_tokens: Some(10_000_000_000), max_output_tokens: Some(10_000_000_000) });
    let plan = resolved_output_budget(&config(Some(ProviderType::OpenAi)), "m", huge);
    assert_eq!(plan.catalog_cap, None);
    assert_eq!(plan.context_cap, None);
    assert_eq!(plan.effective_tokens, 16_384);
}

#[test]
fn diagnostic_names_every_part_of_the_plan() {
    let limits = Some(ModelLimits { context_tokens: None, max_output_tokens: Some(4_096) });
    let plan = resolved_output_budget(&config(Some(ProviderType::OpenAi)), "gpt-4o", limits);
    assert_eq!(
        plan.diagnostic(),
        "per-request output budget: requested=4096, effective=4096, authority=verified model catalog capability, catalog_cap=Some(4096), context_cap=None"
    );
    assert_eq!(plan.recommended_text_tool_chunk_chars(100), 2_048);
    assert_eq!(plan.recommended_text_tool_chunk_chars(5_000), 10_000);
    assert_eq!(plan.recommended_text_tool_chunk_chars(u32::MAX), 32_768);
}
