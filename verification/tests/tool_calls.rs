use nexa_core::llm::{ToolCallDelta, ToolCallRequest};
use nexa_core::tool_calls::{accumulate_tool_call, resolve_delta_target};

#[test]
fn test_accumulate_new_tool_call() {
    let mut calls = Vec::new();
    let delta = ToolCallDelta {
        id: "call_1".into(),
        name: Some("search".into()),
        arguments_delta: r#"{"qu"#.into(),
        index: None,
        thought_signature: None,
    };
    accumulate_tool_call(&mut calls, &delta);
    assert_eq!(calls.len(), 1);
    assert_eq!(calls[0].id, "call_1");
    assert_eq!(calls[0].name, "search");
    assert_eq!(calls[0].arguments, r#"{"qu"#);
}

#[test]
fn test_accumulate_appends_arguments() {
    let mut calls = vec![ToolCallRequest {
        id: "call_1".into(),
        name: "search".into(),
        arguments: r#"{"qu"#.into(),
        thought_signature: None,
    }];
    let delta = ToolCallDelta {
        id: "call_1".into(),
        name: None,
        arguments_delta: r#"ery":"test"}"#.into(),
        index: None,
        thought_signature: None,
    };
    accumulate_tool_call(&mut calls, &delta);
    assert_eq!(calls.len(), 1);
    assert_eq!(calls[0].arguments, r#"{"query":"test"}"#);
}

#[test]
fn test_accumulate_empty_id_appends_to_last() {
    let mut calls = vec![ToolCallRequest {
        id: "call_1".into(),
        name: "search".into(),
        arguments: r#"{"q"#.into(),
        thought_signature: None,
    }];
    let delta = ToolCallDelta {
        id: String::new(),
        name: None,
        arguments_delta: r#"":"v"}"#.into(),
        index: None,
        thought_signature: None,
    };
    accumulate_tool_call(&mut calls, &delta);
    assert_eq!(calls[0].arguments, r#"{"q":"v"}"#);
}

#[test]
fn test_accumulate_multiple_tool_calls() {
    let mut calls = Vec::new();
    accumulate_tool_call(
        &mut calls,
        &ToolCallDelta {
            id: "call_1".into(),
            name: Some("search".into()),
            arguments_delta: "{}".into(),
            index: None,
            thought_signature: None,
        },
    );
    accumulate_tool_call(
        &mut calls,
        &ToolCallDelta {
            id: "call_2".into(),
            name: Some("file".into()),
            arguments_delta: "{}".into(),
            index: None,
            thought_signature: None,
        },
    );
    assert_eq!(calls.len(), 2);
    assert_eq!(calls[0].name, "search");
    assert_eq!(calls[1].name, "file");
}

#[test]
fn test_accumulate_by_index_when_id_missing() {
    let mut calls = vec![
        ToolCallRequest {
            id: "call_0".into(),
            name: "search".into(),
            arguments: r#"{"q":"hel"#.into(),
            thought_signature: None,
        },
        ToolCallRequest {
            id: "call_1".into(),
            name: "read_file".into(),
            arguments: r#"{"path":"C"#.into(),
            thought_signature: None,
        },
    ];

    accumulate_tool_call(
        &mut calls,
        &ToolCallDelta {
            id: String::new(),
            name: None,
            arguments_delta: r#"lo"}"#.into(),
            index: Some(0),
            thought_signature: None,
        },
    );
    accumulate_tool_call(
        &mut calls,
        &ToolCallDelta {
            id: String::new(),
            name: None,
            arguments_delta: r#":\a.md"}"#.into(),
            index: Some(1),
            thought_signature: None,
        },
    );

    assert_eq!(calls[0].arguments, r#"{"q":"hello"}"#);
    assert_eq!(calls[1].arguments, r#"{"path":"C:\a.md"}"#);
}

fn index_delta(index: Option<u32>, args: &str) -> ToolCallDelta {
    ToolCallDelta {
        id: String::new(),
        name: Some("grep".into()),
        arguments_delta: args.into(),
        index,
        thought_signature: Some("sig".into()),
    }
}

#[test]
fn index_at_next_slot_opens_a_numbered_call_and_resolves_to_it() {
    let mut calls: Vec<ToolCallRequest> = Vec::new();
    let delta = index_delta(Some(0), "{");
    accumulate_tool_call(&mut calls, &delta);
    assert_eq!(calls.len(), 1);
    assert_eq!(calls[0].id, "call_0");
    assert_eq!(calls[0].name, "grep");
    assert_eq!(calls[0].thought_signature.as_deref(), Some("sig"));
    let (i, call) = resolve_delta_target(&calls, &delta).unwrap();
    assert_eq!(i, 0);
    assert_eq!(call.arguments, "{");

    let delta = index_delta(Some(1), "[");
    accumulate_tool_call(&mut calls, &delta);
    assert_eq!(calls[1].id, "call_1");
    assert_eq!(resolve_delta_target(&calls, &delta).unwrap().0, 1);
}

#[test]
fn index_beyond_the_next_slot_continues_the_last_call() {
    let mut calls = vec![ToolCallRequest {
        id: "a".into(),
        name: "x".into(),
        arguments: "1".into(),
        thought_signature: None,
    }];
    let delta = index_delta(Some(7), "2");
    accumulate_tool_call(&mut calls, &delta);
    assert_eq!(calls.len(), 1);
    assert_eq!(calls[0].arguments, "12");
    assert_eq!(calls[0].name, "grep");
    assert_eq!(resolve_delta_target(&calls, &delta).unwrap().0, 0);

    let mut empty: Vec<ToolCallRequest> = Vec::new();
    accumulate_tool_call(&mut empty, &delta);
    assert!(empty.is_empty());
    assert!(resolve_delta_target(&empty, &delta).is_none());
    accumulate_tool_call(&mut empty, &index_delta(None, "3"));
    assert!(empty.is_empty());
}

#[test]
fn unknown_id_resolves_to_nothing_until_accumulated() {
    let calls = vec![ToolCallRequest {
        id: "a".into(),
        name: "x".into(),
        arguments: String::new(),
        thought_signature: None,
    }];
    let delta = ToolCallDelta {
        id: "b".into(),
        name: None,
        arguments_delta: "{}".into(),
        index: Some(0),
        thought_signature: None,
    };
    assert!(resolve_delta_target(&calls, &delta).is_none());
    let mut calls = calls;
    accumulate_tool_call(&mut calls, &delta);
    assert_eq!(resolve_delta_target(&calls, &delta).unwrap().0, 1);
    assert_eq!(calls[1].name, "");
}
