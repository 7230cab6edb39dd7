use nexa_core::llm::ToolCallRequest;
use nexa_core::loop_guard::{
    normalize_text_shape, text_shapes_match, tool_call_batch_signature,
    tool_call_is_action_progress, AgentLoopGuard, LoopGuardAction,
};

fn call(arguments: &str) -> ToolCallRequest {
    ToolCallRequest {
        id: "call".to_string(),
        name: "read_file".to_string(),
        arguments: arguments.to_string(),
        thought_signature: None,
    }
}

#[test]
fn detects_repeated_tool_signature_with_reordered_json() {
    let mut guard = AgentLoopGuard::new();
    assert!(guard.observe_model_step("", &[call(r#"{"b":2,"a":1}"#)]).is_none());
    assert!(guard.observe_model_step("", &[call(r#"{"a":1,"b":2}"#)]).is_none());
    let intervention = guard
        .observe_model_step("", &[call(r#"{"a":1,"b":2}"#)])
        .expect("third identical call should be blocked");

    assert_eq!(intervention.action, LoopGuardAction::BlockToolCalls);
    assert_eq!(
        intervention.reason,
        "The model requested the same tool call batch 3 times without visible progress."
    );
    assert_eq!(
        guard.observe_model_step("", &[call(r#"{"a":1,"b":2}"#)]).unwrap().action,
        LoopGuardAction::StopLoop
    );
}

#[test]
fn detects_consecutive_tool_errors() {
    let mut guard = AgentLoopGuard::new();
    assert!(guard.observe_tool_result(true).is_none());
    assert!(guard.observe_tool_result(true).is_none());
    assert!(guard.observe_tool_result(true).is_none());
    assert_eq!(
        guard.observe_tool_result(true).unwrap().action,
        LoopGuardAction::ChangeStrategy
    );
    assert_eq!(
        guard.observe_tool_result(true).unwrap().action,
        LoopGuardAction::StopLoop
    );
    assert!(guard.observe_tool_result(false).is_none());
}

#[test]
fn repeated_plan_bookkeeping_is_blocked_then_stopped() {
    let mut guard = AgentLoopGuard::new();
    let plan_call = ToolCallRequest {
        id: "plan".to_string(),
        name: "update_plan".to_string(),
        arguments: r#"{"steps":[{"step":"write","status":"in_progress"}]}"#.to_string(),
        thought_signature: None,
    };

    assert!(guard.observe_model_step("", std::slice::from_ref(&plan_call)).is_none());
    assert_eq!(
        guard.observe_model_step("", std::slice::from_ref(&plan_call)).unwrap().action,
        LoopGuardAction::BlockToolCalls
    );
    assert_eq!(
        guard.observe_model_step("", &[plan_call]).unwrap().action,
        LoopGuardAction::StopLoop
    );
}

#[test]
fn concrete_action_resets_the_bookkeeping_loop_window() {
    let mut guard = AgentLoopGuard::new();
    let plan_call = ToolCallRequest {
        id: "plan".to_string(),
        name: "update_plan".to_string(),
        arguments: r#"{"steps":[{"step":"write","status":"in_progress"}]}"#.to_string(),
        thought_signature: None,
    };

    assert!(guard.observe_model_step("", std::slice::from_ref(&plan_call)).is_none());
    assert_eq!(
        guard.observe_model_step("", std::slice::from_ref(&plan_call)).unwrap().action,
        LoopGuardAction::BlockToolCalls
    );
    assert!(guard.observe_model_step("", &[call(r#"{"path":"shader.html"}"#)]).is_none());
    assert!(guard.observe_model_step("", &[plan_call]).is_none());
}

#[test]
fn short_multilingual_progress_promises_are_nudged_once_then_stopped() {
    let mut guard = AgentLoopGuard::new();
    let samples = [
        "直接追加第 3 块——物理着色器与 WebGL 初始化。",
        "继续写入文件第 3 块——着色器与 WebGL 初始化。",
        "不再更新计划，直接追加第 3 块着色器和 WebGL 初始化。",
        "停止更新计划，直接写入第 3 块 WebGL 着色器初始化。",
    ];

    assert!(guard.observe_model_step(samples[0], &[]).is_none());
    assert!(guard.observe_model_step(samples[1], &[]).is_none());
    assert_eq!(
        guard.observe_model_step(samples[2], &[]).unwrap().action,
        LoopGuardAction::ChangeStrategy
    );
    assert_eq!(
        guard.observe_model_step(samples[3], &[]).unwrap().action,
        LoopGuardAction::StopLoop
    );
}

#[test]
fn goal_state_changes_count_as_concrete_actions() {
    let mut guard = AgentLoopGuard::new();
    for name in ["create_goal", "update_goal"] {
        let goal_call = ToolCallRequest {
            id: name.to_string(),
            name: name.to_string(),
            arguments: r#"{"status":"complete"}"#.to_string(),
            thought_signature: None,
        };
        assert!(guard.observe_model_step("", &[goal_call]).is_none());
    }
}

#[test]
fn shapes_collapse_digit_runs_and_drop_punctuation() {
    assert_eq!(normalize_text_shape("Step 12 of 345: Done!").as_deref(), Some("step#of#done"));
    assert_eq!(normalize_text_shape("short 1"), None);
    assert!(text_shapes_match("abcdefghijkl", "abcdefghijkl"));
    assert!(text_shapes_match("abcdefghijkl", "abcdefghijkz"));
    assert!(!text_shapes_match("abcdefghijkl", "zyxwvutsrqpo"));
    assert!(!text_shapes_match("a", "b"));
}

#[test]
fn batch_signature_canonicalizes_json_arguments() {
    let calls = [call(r#"{ "b" : 2, "a" : 1 }"#), call("not json")];
    assert_eq!(
        tool_call_batch_signature(&calls),
        r#"read_file:{"a":1,"b":2}|read_file:not json"#
    );
    assert!(tool_call_is_action_progress("read_file"));
    assert!(!tool_call_is_action_progress("update_plan"));
    assert_eq!(LoopGuardAction::ChangeStrategy.as_str(), "changeStrategy");
}

#[test]
fn tool_error_reasons_count_the_streak() {
    let mut guard = AgentLoopGuard::new();
    for _ in 0..3 {
        guard.observe_tool_result(true);
    }
    let first = guard.observe_tool_result(true).unwrap();
    assert_eq!(first.reason, "Observed 4 consecutive tool errors.");
    let second = guard.observe_tool_result(true).unwrap();
    assert_eq!(
        second.reason,
        "Observed 5 consecutive tool errors after the bounded loop-guard intervention."
    );
    assert!(second.prompt.is_empty());
}
