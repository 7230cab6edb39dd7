use nexa_core::llm::{Message, Role};
use nexa_core::prompt_ir::{
    controller_state_message, evidence_message, AgentPrompt, PromptBlock, PromptCompileOptions,
    PromptLayer, RuntimePlacement,
};

fn user(text: &str) -> Message {
    Message::text(Role::User, text.to_string())
}

fn block(layer: PromptLayer, text: &str) -> PromptBlock {
    PromptBlock::new(layer, text.to_string()).unwrap()
}

#[test]
fn compiler_keeps_runtime_separate_from_transcript_at_tail() {
    let prompt = AgentPrompt {
        policy: vec![block(PromptLayer::Policy, "policy")],
        runtime: vec![block(PromptLayer::Runtime, "runtime")],
        transcript: vec![user("first")],
        current_user: Some(user("second")),
        ..AgentPrompt::default()
    };

    let messages = prompt.compile_to_messages(PromptCompileOptions {
        runtime_placement: RuntimePlacement::Tail,
    });

    assert_eq!(messages.len(), 4);
    assert_eq!(messages[0].role, Role::System);
    assert_eq!(messages[0].text_content(), "policy");
    assert_eq!(messages[1].text_content(), "first");
    assert_eq!(messages[2].text_content(), "second");
    assert_eq!(messages[3].role, Role::System);
    assert_eq!(messages[3].text_content(), "runtime");
}

#[test]
fn compiler_places_runtime_after_policy_when_requested() {
    let prompt = AgentPrompt {
        policy: vec![block(PromptLayer::Policy, "policy")],
        runtime: vec![block(PromptLayer::Runtime, "runtime")],
        current_user: Some(user("question")),
        ..AgentPrompt::default()
    };

    let messages = prompt.compile_to_messages(PromptCompileOptions::default());

    assert_eq!(messages.len(), 3);
    assert_eq!(messages[0].text_content(), "policy");
    assert_eq!(messages[1].text_content(), "runtime");
    assert_eq!(messages[2].text_content(), "question");
}

#[test]
fn compiler_keeps_evidence_and_controller_state_out_of_policy() {
    let prompt = AgentPrompt {
        policy: vec![block(PromptLayer::Policy, "policy")],
        evidence: vec![block(PromptLayer::Evidence, "evidence")],
        controller_state: vec![block(PromptLayer::ControllerState, "plan")],
        current_user: Some(user("question")),
        ..AgentPrompt::default()
    };

    let messages = prompt.compile_to_messages(PromptCompileOptions::default());

    assert_eq!(messages[0].text_content(), "policy");
    assert_eq!(messages[1].text_content(), "evidence\n\nplan");
    assert!(!messages[0].text_content().contains("evidence"));
    assert!(!messages[0].text_content().contains("plan"));
}

#[test]
fn controller_state_message_ignores_blank_content() {
    assert!(controller_state_message("   ".to_string()).is_none());
    let message = controller_state_message("## Loop Guard\nChange strategy".to_string()).unwrap();
    assert_eq!(message.role, Role::System);
    assert_eq!(message.text_content(), "## Loop Guard\nChange strategy");
}

#[test]
fn evidence_message_ignores_blank_content() {
    assert!(evidence_message("   ".to_string()).is_none());
    let message = evidence_message("## Retrieved Evidence\nfacts".to_string()).unwrap();
    assert_eq!(message.role, Role::System);
    assert_eq!(message.text_content(), "## Retrieved Evidence\nfacts");
}

#[test]
fn blocks_are_trimmed_and_joined_with_blank_lines() {
    let prompt = AgentPrompt {
        policy: vec![block(PromptLayer::Policy, "  first rule \n")],
        developer: vec![block(PromptLayer::Developer, "\tsecond rule")],
        ..AgentPrompt::default()
    };
    let messages = prompt.compile_to_messages(PromptCompileOptions::default());
    assert_eq!(messages.len(), 1);
    assert_eq!(messages[0].text_content(), "first rule\n\nsecond rule");
}

#[test]
fn blank_block_is_refused_and_empty_prompt_compiles_to_nothing() {
    assert!(PromptBlock::new(PromptLayer::Runtime, " \n\t".to_string()).is_none());
    let messages = AgentPrompt::default().compile_to_messages(PromptCompileOptions::default());
    assert!(messages.is_empty());
}
