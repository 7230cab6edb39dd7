use nexa_core::context::{
    assemble_system_prompt, build_evicted_recap_from_messages, cap_system_prompt,
    cap_text_to_chars, estimate_context_usage_breakdown_for_model,
    estimate_tool_tokens_for_model, skill_prompt_char_budget, system_prompt_char_budget,
    truncate_text, MAX_SYSTEM_PROMPT_CHARS,
};
use nexa_core::llm::{Message, Role, ToolCallRequest, ToolDefinition};

fn msg(role: Role, content: &str) -> Message {
    Message::text(role, content.to_string())
}

fn tool(name: &str) -> ToolDefinition {
    ToolDefinition {
        name: name.to_string(),
        description: "d".to_string(),
        parameters: r#"{"type":"object"}"#.to_string(),
    }
}

#[test]
fn context_usage_breakdown_reconciles_to_actual_prompt_tokens() {
    let messages = vec![msg(Role::System, "System prompt"), msg(Role::User, "Hello")];
    // The model's estimates for the two messages.
    let breakdown =
        estimate_context_usage_breakdown_for_model(&messages, &[7, 5], &[], &[], Some(10));
    let segment_total = breakdown.segments.iter().map(|segment| segment.tokens).sum::<u32>();

    assert_eq!(breakdown.total_tokens, 10);
    assert_eq!(segment_total, 10);
}

#[test]
fn context_usage_breakdown_splits_prompt_conversation_tools_and_mcp() {
    let mut assistant = msg(Role::Assistant, "I'll use a tool.");
    assistant.tool_calls = Some(vec![ToolCallRequest {
        id: "call_1".into(),
        name: "search".into(),
        arguments: r#"{"query":"rust"}"#.into(),
        thought_signature: None,
    }]);
    let messages = vec![
        msg(Role::System, "System prompt"),
        msg(Role::User, "Find Rust docs"),
        assistant,
        Message::text_with_name(Role::Tool, "Search result".to_string(), "call_1".to_string()),
    ];
    let tools = vec![tool("search_knowledge_base"), tool("mcp__docs__lookup")];
    let breakdown = estimate_context_usage_breakdown_for_model(
        &messages,
        &[6, 7, 12, 6],
        &tools,
        &[9, 9],
        None,
    );
    let kinds: Vec<(&str, u32)> =
        breakdown.segments.iter().map(|s| (s.kind.as_str(), s.tokens)).collect();
    assert_eq!(
        kinds,
        vec![("prompts", 6), ("conversation", 19), ("toolResults", 6), ("tools", 19), ("mcp", 19)]
    );
    assert_eq!(breakdown.total_tokens, 69);
}

#[test]
fn breakdown_scales_down_and_tops_up() {
    let messages = vec![msg(Role::System, "s"), msg(Role::User, "u"), msg(Role::User, "v")];
    // Estimates 10 (prompts) and 10 (conversation) against an actual count of 7:
    // scaled to 3 and 3, the remainder 1 going to the last largest kind.
    let scaled = estimate_context_usage_breakdown_for_model(&messages, &[10, 4, 6], &[], &[], Some(7));
    let kinds: Vec<(&str, u32)> =
        scaled.segments.iter().map(|s| (s.kind.as_str(), s.tokens)).collect();
    assert_eq!(kinds, vec![("prompts", 4), ("conversation", 3)]);
    assert_eq!(scaled.total_tokens, 7);

    let topped = estimate_context_usage_breakdown_for_model(&messages, &[1, 1, 1], &[], &[], Some(10));
    let kinds: Vec<(&str, u32)> =
        topped.segments.iter().map(|s| (s.kind.as_str(), s.tokens)).collect();
    assert_eq!(kinds, vec![("prompts", 1), ("conversation", 2), ("overhead", 7)]);

    let none = estimate_context_usage_breakdown_for_model(&[], &[], &[], &[], None);
    assert_eq!(none.total_tokens, 0);
    assert!(none.segments.is_empty());
}

#[test]
fn cap_system_prompt_is_utf8_safe() {
    let text = format!("{}中文", "a".repeat(MAX_SYSTEM_PROMPT_CHARS - 1));
    let capped = cap_system_prompt(text);

    assert!(capped.ends_with("...[truncated]"));
}

#[test]
fn truncate_text_is_utf8_safe() {
    let text = format!("{}中文", "a".repeat(9));
    let truncated = truncate_text(&text, 10);

    assert!(truncated.ends_with("..."));
}

#[test]
fn truncation_prefers_word_and_line_boundaries() {
    assert_eq!(truncate_text("  hello\nbig world  ", 100), "hello big world");
    assert_eq!(truncate_text("hello big world", 12), "hello big...");
    assert_eq!(truncate_text("abcdefghij", 4), "abcd...");
    assert_eq!(cap_text_to_chars("one two\nthree four".to_string(), 16, "|"), "one two|");
    assert_eq!(cap_text_to_chars("one two three".to_string(), 9, "|"), "one two|");
    assert_eq!(cap_text_to_chars("short".to_string(), 5, "|"), "short");
    assert_eq!(cap_text_to_chars("longer".to_string(), 0, "|"), "");
    assert_eq!(cap_text_to_chars("longer".to_string(), 2, "[cut]"), "[c");
}

#[test]
fn recap_lists_user_turns_and_plain_answers() {
    let mut tool_step = msg(Role::Assistant, "calling a tool");
    tool_step.tool_calls = Some(vec![ToolCallRequest {
        id: "c".into(),
        name: "search".into(),
        arguments: "{}".into(),
        thought_signature: None,
    }]);
    let mut image_only = msg(Role::User, " ");
    image_only.has_images = true;
    let evicted = vec![
        msg(Role::System, "sys"),
        msg(Role::User, "What is\nRust?"),
        tool_step,
        msg(Role::Tool, "result"),
        msg(Role::Assistant, "A systems language."),
        image_only,
        msg(Role::User, "   "),
    ];
    assert_eq!(
        build_evicted_recap_from_messages(&evicted),
        "## Earlier conversation context (summarized)\nThese topics were discussed earlier but trimmed for context space:\n- User asked: What is Rust?\n- You answered: A systems language.\n- User asked: [image]"
    );
    assert_eq!(build_evicted_recap_from_messages(&[msg(Role::Tool, "x")]), "");
}

#[test]
fn recap_stops_after_about_eight_hundred_bytes() {
    let long = "word ".repeat(40);
    let evicted: Vec<Message> = (0..20).map(|_| msg(Role::User, &long)).collect();
    let recap = build_evicted_recap_from_messages(&evicted);
    let lines = recap.lines().filter(|l| l.starts_with("- User asked: ")).count();
    assert_eq!(lines, 7);
}

#[test]
fn budgets_follow_the_context_size() {
    assert_eq!(system_prompt_char_budget(128_000, 4_096), 123_904);
    assert_eq!(system_prompt_char_budget(8_000, 4_000), 16_000);
    assert_eq!(system_prompt_char_budget(3_000, 4_000), 12_000);
    assert_eq!(system_prompt_char_budget(1_000_000, 0), 256_000);
    assert_eq!(system_prompt_char_budget(2_000, 1_000), 4_000);
    assert_eq!(skill_prompt_char_budget(128_000, 123_904), 8_000);
    assert_eq!(skill_prompt_char_budget(2_000_000, 256_000), 64_000);
    assert_eq!(skill_prompt_char_budget(2_000_000, 20_000), 10_000);
    assert_eq!(estimate_tool_tokens_for_model(&[5, 7]), 32);
}

#[test]
fn assembled_prompt_keeps_room_for_skills() {
    assert_eq!(assemble_system_prompt("base".to_string(), String::new(), 100), "base");
    let prompt = assemble_system_prompt("aaaa bbbb cccc".to_string(), "SKILLS".to_string(), 12);
    assert!(prompt.ends_with("SKILLS"));
    assert!(prompt.len() <= 12);
    let base = "Core instruction.\n".repeat(100);
    let prompt = assemble_system_prompt(base, "## Available Skills\n- one".to_string(), 200);
    assert!(prompt.contains("system prompt truncated before skills"));
    assert!(prompt.ends_with("## Available Skills\n- one"));
    assert!(prompt.len() <= 200);
}

#[test]
fn test_estimate_tool_tokens() {
    // One tool whose "name description parameters" text estimates at 20 tokens.
    let tokens = nexa_core::context::estimate_tool_tokens(&[20]);
    assert!(tokens > 10, "Tool tokens should be non-trivial");
}
