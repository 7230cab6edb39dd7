use nexa_core::llm::{Message, ProviderType, Role, ToolDefinition, Usage};
use nexa_core::prompt_cache::{
    diff_snapshots, first_changed_message_index, serialized_message_for_hash, snapshot_for,
    PromptCacheTracker,
};

fn msg(role: Role, text: &str) -> Message {
    Message::text(role, text.to_string())
}

/// The model's token estimate for each message: one token per four characters.
fn tokens(messages: &[Message]) -> Vec<u32> {
    messages.iter().map(|m| (m.content.chars().count() as u32 + 3) / 4 + 4).collect()
}

fn snap(provider: Option<ProviderType>, messages: &[Message], tools: &[ToolDefinition]) -> nexa_core::prompt_cache::PromptCacheSnapshot {
    snapshot_for(provider, "m", messages, &tokens(messages), tools)
}

#[test]
fn stable_system_hash_ignores_runtime_system_blocks() {
    let first = vec![msg(Role::System, "stable"), msg(Role::System, "date one")];
    let second = vec![msg(Role::System, "stable"), msg(Role::System, "date two")];
    assert_eq!(
        snap(None, &first, &[]).stable_system_hash,
        snap(None, &second, &[]).stable_system_hash
    );
}

#[test]
fn snapshot_diff_reports_runtime_system_prefix_changes() {
    let first = snap(
        Some(ProviderType::DeepSeek),
        &[msg(Role::System, "stable"), msg(Role::System, "date one")],
        &[],
    );
    let second = snap(
        Some(ProviderType::DeepSeek),
        &[msg(Role::System, "stable"), msg(Role::System, "date two")],
        &[],
    );

    let diff = diff_snapshots(&first, &second);

    assert!(diff.iter().any(|change| change == "first changed message index 1"));
    assert!(diff.iter().any(|change| change == "system message hashes changed"));
    assert!(diff.iter().any(|change| change.starts_with("serialized prefix hash changed")));
}

#[test]
fn snapshot_diff_reports_tool_schema_changes() {
    let tool_a = ToolDefinition {
        name: "search".into(),
        description: "Search".into(),
        parameters: r#"{"type":"object"}"#.into(),
    };
    let mut tool_b = tool_a.clone();
    tool_b.description = "Search docs".into();
    let previous = snap(None, &[msg(Role::System, "stable")], &[tool_a]);
    let next = snap(None, &[msg(Role::System, "stable")], &[tool_b]);
    assert_eq!(diff_snapshots(&previous, &next), vec!["tool schemas changed with same count"]);
}

#[test]
fn snapshot_diff_reports_provider_type_changes() {
    let previous = snap(Some(ProviderType::OpenAi), &[msg(Role::System, "stable")], &[]);
    let next = snap(Some(ProviderType::DeepSeek), &[msg(Role::System, "stable")], &[]);

    assert_eq!(
        diff_snapshots(&previous, &next),
        vec!["provider type changed (Some(OpenAi) -> Some(DeepSeek))"]
    );
}

#[test]
fn snapshot_diff_reports_counts_positions_and_windows() {
    let previous = snap(None, &[msg(Role::System, "a"), msg(Role::User, "hi")], &[]);
    let next = snap(
        None,
        &[msg(Role::System, "a"), msg(Role::User, "hi"), msg(Role::System, "late"), msg(Role::Tool, "r")],
        &[],
    );
    assert_eq!(
        diff_snapshots(&previous, &next),
        vec![
            "first changed message index 2".to_string(),
            "serialized prefix hash changed (1024t, 4096t, 16384t)".to_string(),
            "system message positions changed ([0] -> [0, 2])".to_string(),
            "system message hashes changed".to_string(),
            "dynamic system tokens changed (0 -> 5)".to_string(),
            "tool result tokens changed (0 -> 5)".to_string(),
        ]
    );
    assert!(diff_snapshots(&next, &next).is_empty());
    assert_eq!(first_changed_message_index(&[1, 2], &[1, 2, 3]), Some(2));
    assert_eq!(first_changed_message_index(&[1, 2], &[1, 2]), None);
}

#[test]
fn message_fingerprint_text() {
    let mut m = msg(Role::Assistant, "hi");
    m.reasoning_content = Some("think".to_string());
    assert_eq!(
        serialized_message_for_hash(&m),
        "role=assistant;name=;text=hi;tool_calls=null;reasoning=think"
    );
    m.tool_calls = Some(vec![nexa_core::llm::ToolCallRequest {
        id: "c1".to_string(),
        name: "read_file".to_string(),
        arguments: r#"{"path":"a"}"#.to_string(),
        thought_signature: None,
    }]);
    assert_eq!(
        serialized_message_for_hash(&m),
        r#"role=assistant;name=;text=hi;tool_calls=[{"id":"c1","name":"read_file","arguments":"{\"path\":\"a\"}","thought_signature":null}];reasoning=think"#
    );
}

#[test]
fn tool_schemas_are_fingerprinted_as_compact_json() {
    let tools = vec![ToolDefinition {
        name: "search".to_string(),
        description: "Search".to_string(),
        parameters: r#"{ "type": "object", "properties": {} }"#.to_string(),
    }];
    let reordered = vec![ToolDefinition {
        parameters: r#"{"properties":{},"type":"object"}"#.to_string(),
        ..tools[0].clone()
    }];
    let a = snapshot_for(None, "m", &[], &[], &tools);
    let b = snapshot_for(None, "m", &[], &[], &reordered);
    assert_eq!(a.tool_schema_hash, b.tool_schema_hash);
    assert!(diff_snapshots(&a, &b).is_empty());
}

#[test]
fn tracker_compares_consecutive_requests() {
    let mut tracker = PromptCacheTracker::default();
    let first = vec![msg(Role::System, "stable"), msg(Role::User, "q")];
    tracker.begin(None, "m", &first, &tokens(&first), &[]);
    let usage = Usage {
        prompt_tokens: 10,
        completion_tokens: 2,
        total_tokens: 12,
        thinking_tokens: None,
        cache_read_tokens: Some(8),
        cache_miss_tokens: Some(2),
        cache_creation_tokens: None,
    };
    let first_obs = tracker.complete(Some(usage), Some(false)).unwrap();
    assert!(first_obs.changes.is_empty());
    assert!(first_obs.previous_snapshot_source.is_none());
    assert_eq!(first_obs.cache_read_tokens, Some(8));
    assert_eq!(tracker.previous_cache_read_tokens, Some(8));
    assert!(tracker.complete(None, None).is_none());

    let second = vec![msg(Role::System, "changed"), msg(Role::User, "q")];
    tracker.begin(Some(ProviderType::Qwen), "m", &second, &tokens(&second), &[]);
    let obs = tracker.complete(None, None).unwrap();
    assert_eq!(obs.version, 1);
    assert_eq!(obs.request_kind, "mainAgentStep");
    assert_eq!(obs.previous_snapshot_source.as_ref().unwrap().kind, "currentTurnPreviousStep");
    assert_eq!(obs.changes[0], "provider type changed (None -> Some(Qwen))");
    assert!(obs.changes.contains(&"stable system prompt changed".to_string()));
    assert_eq!(tracker.previous_cache_read_tokens, Some(8));
}

#[test]
fn seeded_previous_turn_is_the_comparison_source() {
    let mut tracker = PromptCacheTracker::default();
    let earlier = vec![msg(Role::System, "stable"), msg(Role::User, "first")];
    tracker.begin(None, "m", &earlier, &tokens(&earlier), &[]);
    let snapshot = tracker.complete(None, None).unwrap().snapshot;
    let mut next = PromptCacheTracker::default();
    next.seed_previous_turn_snapshot("turn-1".to_string(), snapshot);
    let later = vec![msg(Role::System, "stable"), msg(Role::User, "first"), msg(Role::User, "second")];
    next.begin(None, "m", &later, &tokens(&later), &[]);
    let obs = next.complete(None, None).unwrap();
    let source = obs.previous_snapshot_source.unwrap();
    assert_eq!(source.kind, "previousConversationTurn");
    assert_eq!(source.turn_id.as_deref(), Some("turn-1"));
}
