use nexa_core::agent::{
    build_system_prompt, default_system_prompt, llm_streaming_disabled_by_env,
    plan_mode_prompt_section, AgentExecutionMode, AgentRequestKind, AgentSteeringMessage,
};
use nexa_core::llm::ContentPart;

#[test]
fn test_build_system_prompt_skips_blank_sections() {
    let prompt = build_system_prompt(Some("   "), &["", "  ", "\n\n"]);
    assert_eq!(prompt, default_system_prompt());
}

#[test]
fn build_system_prompt_orders_core_custom_and_dynamic_sections() {
    let prompt = build_system_prompt(
        Some("  Prefer terse answers. "),
        &["## User Preferences\n\n- Prefer PDFs first", "  ", " ## Time\nnow "],
    );
    assert!(prompt.starts_with("You are **Nexa**"));
    let custom_idx = prompt.find("## Conversation-Specific Instructions").unwrap();
    let dynamic_idx = prompt.find("## User Preferences").unwrap();
    assert!(dynamic_idx > custom_idx);
    assert!(prompt.contains(
        "citation rules above.\n\nPrefer terse answers.\n\n## User Preferences\n\n- Prefer PDFs first\n\n## Time\nnow"
    ));
    assert!(prompt.ends_with("## Time\nnow"));
    assert_eq!(prompt, prompt.trim_start());
}

#[test]
fn default_system_prompt_is_the_trimmed_kernel() {
    let prompt = default_system_prompt();
    assert!(prompt.starts_with("You are **Nexa**, a local-first personal workspace assistant."));
    assert!(prompt.ends_with("grounded in the evidence you actually have."));
    assert_eq!(prompt.trim(), prompt);
}

#[test]
fn execution_mode_wire_values() {
    assert_eq!(AgentExecutionMode::from_wire(None), Ok(AgentExecutionMode::Normal));
    assert_eq!(AgentExecutionMode::from_wire(Some("  ")), Ok(AgentExecutionMode::Normal));
    assert_eq!(AgentExecutionMode::from_wire(Some(" Default ")), Ok(AgentExecutionMode::Normal));
    assert_eq!(AgentExecutionMode::from_wire(Some("PLAN")), Ok(AgentExecutionMode::Plan));
    assert_eq!(
        AgentExecutionMode::from_wire(Some(" ship it ")),
        Err("Unsupported agent execution mode 'ship it'.".to_string())
    );
    assert!(AgentExecutionMode::Plan.is_plan());
    assert!(!AgentExecutionMode::Normal.is_plan());
    assert_eq!(AgentExecutionMode::Plan.as_str(), "plan");
    assert_eq!(AgentExecutionMode::Normal.as_str(), "normal");
    assert_eq!(AgentExecutionMode::default(), AgentExecutionMode::Normal);
}

#[test]
fn request_kind_wire_names() {
    assert_eq!(AgentRequestKind::MainAgentStep.as_str(), "mainAgentStep");
    assert_eq!(AgentRequestKind::SubagentWorker.as_str(), "subagentWorker");
    assert_eq!(AgentRequestKind::default(), AgentRequestKind::MainAgentStep);
}

#[test]
fn steering_text_message_has_one_text_part() {
    let m = AgentSteeringMessage::text("focus on edge cases instead".to_string());
    assert_eq!(m.content, "focus on edge cases instead");
    assert_eq!(
        m.parts,
        vec![ContentPart::Text { text: "focus on edge cases instead".to_string() }]
    );
    assert!(m.image_attachments.is_none());
}

#[test]
fn plan_mode_section_states_the_contract() {
    let section = plan_mode_prompt_section();
    assert!(section.starts_with("## Plan Mode\n\nYou are in Plan Mode for this user turn."));
    assert!(section.contains("`<proposed_plan>...</proposed_plan>`"));
}

#[test]
fn streaming_flag_values() {
    assert!(!llm_streaming_disabled_by_env(None, None));
    assert!(llm_streaming_disabled_by_env(Some(" 1 "), None));
    assert!(llm_streaming_disabled_by_env(None, Some("yes")));
    for off in ["0", "false", "OFF", " no ", "Disabled", "   "] {
        assert!(!llm_streaming_disabled_by_env(Some(off), Some(off)), "{off}");
    }
}

#[test]
fn test_build_system_prompt_preserves_core_rules() {
    let prompt = build_system_prompt(
        Some("Prefer terse answers."),
        &["## User Preferences\n\n- Prefer PDFs first"],
    );

    let core_idx = prompt.find("You are **Nexa**").expect("core prompt should be present");
    let custom_idx = prompt
        .find("## Conversation-Specific Instructions")
        .expect("custom section should be present");
    let dynamic_idx = prompt.find("## User Preferences").expect("dynamic section should be present");

    assert_eq!(core_idx, 0, "core prompt should stay first");
    assert!(custom_idx > core_idx, "custom instructions should be appended");
    assert!(dynamic_idx > custom_idx, "dynamic sections should follow custom text");
    assert!(prompt.contains("Prefer terse answers."));
    assert!(prompt.contains("Own the requested outcome"));
    assert!(prompt.contains("Protect user work"));
    assert!(prompt.contains("A tool call is not evidence of success"));
    assert!(prompt.contains("closed observe-fix-verify loop"));
    assert!(prompt.contains("browser_evidence_capture"));
    assert!(prompt.contains("keep recent complete turns verbatim"));
    assert!(!prompt.contains("## Tool Contract: run_shell"));
    assert!(prompt.len() < 8_000);
}
