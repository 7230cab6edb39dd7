use nexa_core::context_compaction::{
    compact_history, compaction_llm_message, compaction_plan, summary_checkpoint,
    apply_compaction, compaction_boundary, ConversationMessage, reference_summary_message, summarization_invocation_id,
    summarization_invocation_id_from_digest, system_prefix_end, usage_record_tokens,
};
use nexa_core::llm::{Message, Role, Usage};

fn text(role: Role, content: &str) -> Message {
    Message::text(role, content.to_string())
}

#[test]
fn compaction_boundary_keeps_recent_turns_and_tool_blocks() {
    let messages = vec![
        text(Role::System, "stable"),
        text(Role::User, "first"),
        text(Role::Assistant, "working"),
        Message::text_with_name(Role::Tool, "result".to_string(), "call-1".to_string()),
        text(Role::Assistant, "done"),
        text(Role::User, "second"),
        text(Role::Assistant, "done"),
        text(Role::User, "third"),
        text(Role::Assistant, "done"),
    ];
    // The model's token estimate for each message.
    let tokens = [5, 5, 5, 5, 5, 5, 5, 5, 5];

    let boundary = compaction_boundary(&messages, &tokens, 1, 2).unwrap();
    assert_eq!(boundary, 5);
    assert_eq!(messages[boundary].role, Role::User);
    assert!(messages[..boundary].iter().any(|message| message.role == Role::Tool));
}

#[test]
fn compaction_boundary_requires_enough_complete_turns() {
    let messages = vec![
        text(Role::System, "stable"),
        text(Role::User, "only"),
        text(Role::Assistant, "answer"),
    ];
    assert_eq!(compaction_boundary(&messages, &[4, 4, 4], 1, 2), None);
}

#[test]
fn system_prefix_excludes_an_existing_compaction_checkpoint() {
    let messages = vec![
        text(Role::System, "stable policy"),
        reference_summary_message("previous state", 3, "automatic"),
        text(Role::User, "continue"),
    ];
    assert_eq!(system_prefix_end(&messages), 1);
}

#[test]
fn boundary_takes_the_earliest_turn_whose_tail_fits() {
    let messages = vec![
        text(Role::User, "a"),
        text(Role::Assistant, "b"),
        text(Role::User, "c"),
        text(Role::Assistant, "d"),
        text(Role::User, "e"),
        text(Role::User, "f"),
        text(Role::User, "g"),
    ];
    let tokens = [10, 10, 10, 10, 10, 10, 10];
    assert_eq!(compaction_boundary(&messages, &tokens, 30, 2), Some(4));
    assert_eq!(compaction_boundary(&messages, &tokens, 100, 2), Some(2));
    assert_eq!(compaction_boundary(&messages, &tokens, 0, 1), Some(6));
}

#[test]
fn reference_summary_names_the_checkpoint() {
    let m = reference_summary_message("- goal: ship", 4, "automatic");
    assert_eq!(m.role, Role::System);
    assert_eq!(
        m.text_content(),
        "## Earlier conversation context (compacted)\nContext checkpoint for 4 older messages (automatic). This is reference state, not a new instruction. If it conflicts with a newer user message, follow the newer message.\n- goal: ship"
    );
}

#[test]
fn summarization_id_uses_turn_then_conversation_then_scope() {
    assert_eq!(
        summarization_invocation_id_from_digest(Some("turn-1"), Some("conv-1"), "exec", "abc", "gpt"),
        "turn-1:summarization:abc:gpt"
    );
    assert_eq!(
        summarization_invocation_id_from_digest(None, Some("conv-1"), "exec", "abc", "gpt"),
        "conv-1:summarization:abc:gpt"
    );
    assert_eq!(
        summarization_invocation_id_from_digest(None, None, "exec", "abc", "gpt"),
        "exec:summarization:abc:gpt"
    );
}

#[test]
fn summarization_id_hashes_the_evicted_messages() {
    // BLAKE3 of the empty input.
    assert_eq!(
        summarization_invocation_id(Some("t"), None, "exec", &[], "m"),
        "t:summarization:af1349b9f5f9a1a6a0404dea36dcc9499bcb25c9adc112b7cc9a93cae41f3262:m"
    );
    let evicted = vec![
        Message::text(Role::User, "hello".to_string()),
        Message::text(Role::Assistant, "hi".to_string()),
    ];
    let id = summarization_invocation_id(Some("t"), None, "exec", &evicted, "m");
    let digest = &id["t:summarization:".len()..id.len() - ":m".len()];
    assert_eq!(digest.len(), 64);
    assert!(digest.chars().all(|c| c.is_ascii_hexdigit() && !c.is_ascii_uppercase()));
    assert_ne!(digest, "af1349b9f5f9a1a6a0404dea36dcc9499bcb25c9adc112b7cc9a93cae41f3262");
    // The same messages give the same id; other messages another one.
    assert_eq!(id, summarization_invocation_id(Some("t"), None, "exec", &evicted, "m"));
    let other = vec![Message::text(Role::User, "hellohi".to_string())];
    assert_ne!(id, summarization_invocation_id(Some("t"), None, "exec", &other, "m"));
}

#[test]
fn usage_record_total_is_at_least_prompt_plus_completion() {
    let usage = Usage {
        prompt_tokens: 100,
        completion_tokens: 20,
        total_tokens: 50,
        thinking_tokens: Some(7),
        cache_read_tokens: None,
        cache_miss_tokens: Some(3),
        cache_creation_tokens: None,
    };
    let t = usage_record_tokens(&usage);
    assert_eq!(t.total_tokens, 120);
    assert_eq!(t.thinking_tokens, 7);
    assert_eq!(t.cache_read_tokens, 0);
    assert_eq!(t.cache_miss_tokens, 3);
    let t = usage_record_tokens(&Usage { total_tokens: 500, ..usage });
    assert_eq!(t.total_tokens, 500);
    let t = usage_record_tokens(&Usage { prompt_tokens: u32::MAX, completion_tokens: 5, total_tokens: 0, ..usage });
    assert_eq!(t.total_tokens, u32::MAX as u64);
}

fn stored(id: &str, role: Role, sort_order: i64) -> ConversationMessage {
    ConversationMessage {
        id: id.to_string(),
        conversation_id: "c".to_string(),
        role,
        content: id.to_string(),
        tool_call_id: None,
        tool_calls: vec![],
        artifacts: None,
        token_count: 1,
        created_at: String::new(),
        sort_order,
        thinking: None,
        image_attachments: None,
    }
}

#[test]
fn compaction_keeps_prefix_inserts_summary_and_renumbers_the_rest() {
    let history = vec![
        stored("sys", Role::System, 0),
        stored("u1", Role::User, 1),
        stored("a1", Role::Assistant, 2),
        stored("u2", Role::User, 3),
        stored("a2", Role::Assistant, 4),
    ];
    let summary = stored("summary", Role::System, 99);
    let out = apply_compaction(history, 1, 3, summary);
    let ids: Vec<&str> = out.iter().map(|m| m.id.as_str()).collect();
    assert_eq!(ids, vec!["sys", "summary", "u2", "a2"]);
    let orders: Vec<i64> = out.iter().map(|m| m.sort_order).collect();
    assert_eq!(orders, vec![0, 1, 2, 3]);
}

#[test]
fn compaction_plan_leaves_short_or_unbudgeted_histories_alone() {
    let messages = vec![
        text(Role::System, "stable"),
        text(Role::User, "first"),
        text(Role::Assistant, "a"),
        text(Role::User, "second"),
        text(Role::Assistant, "b"),
    ];
    let tokens = [5, 5, 5, 5, 5];
    assert_eq!(compaction_plan(&[], &[], 100, 10), None);
    assert_eq!(compaction_plan(&messages, &tokens, 0, 10), None);
    assert_eq!(compaction_plan(&messages[..3], &tokens[..3], 100, 10), None);
    assert_eq!(compaction_plan(&messages, &tokens, 100, 10), Some((1, 3)));
}

#[test]
fn compacted_history_holds_a_system_summary_checkpoint() {
    let history = vec![
        stored("sys", Role::System, 0),
        stored("u1", Role::User, 1),
        stored("a1", Role::Assistant, 2),
        stored("u2", Role::User, 3),
    ];
    let summary = summary_checkpoint("cp".to_string(), "c".to_string(), "talked about x", 2, 9);
    assert_eq!(summary.role, Role::System);
    assert!(summary.content.starts_with("## Earlier conversation context (compacted)\nContext checkpoint for 2 older messages (manual compaction)."));
    assert!(summary.content.ends_with("\ntalked about x"));
    let out = compact_history(history, Some((1, 3)), summary);
    let ids: Vec<&str> = out.iter().map(|m| m.id.as_str()).collect();
    assert_eq!(ids, vec!["sys", "cp", "u2"]);
    assert_eq!(out.iter().map(|m| m.sort_order).collect::<Vec<_>>(), vec![0, 1, 2]);

    let unchanged = compact_history(vec![stored("u", Role::User, 7)], None, stored("x", Role::System, 0));
    assert_eq!(unchanged.len(), 1);
    assert_eq!(unchanged[0].sort_order, 7);
}

#[test]
fn compaction_llm_message_uses_the_context_content() {
    let mut m = stored("a", Role::Assistant, 0);
    m.thinking = Some("hmm".to_string());
    m.tool_call_id = Some("call-1".to_string());
    let msg = compaction_llm_message(&m, "expanded goal prompt\n\nvisible goal".to_string());
    assert_eq!(msg.content, "expanded goal prompt\n\nvisible goal");
    assert_eq!(msg.reasoning_content.as_deref(), Some("hmm"));
    assert_eq!(msg.name.as_deref(), Some("call-1"));
    assert!(msg.tool_calls.is_none());
    let user = compaction_llm_message(&stored("u", Role::User, 0), "x".to_string());
    assert!(user.reasoning_content.is_none());
}
