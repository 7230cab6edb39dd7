use nexa_core::finalization::{
    cancelled_turn_text, extract_proposed_plan_artifact, find_ascii_case_insensitive,
    interrupted_tool_result, max_iterations_text, proposed_plan_title, reasoning_was_promoted,
    verification_artifact_passed, verification_artifact_tone, verification_trace_status,
};

#[test]
fn verification_completion_requires_passed_status() {
    assert!(verification_artifact_passed(Some("passed")));
    for status in ["partial", "pending", "failed"] {
        assert!(!verification_artifact_passed(Some(status)));
    }
}

#[test]
fn extracts_proposed_plan_artifact_from_final_text() {
    let artifact = extract_proposed_plan_artifact(
        "Context.\n\n<proposed_plan>\n# Implement Plan Mode\n\n- Add readonly tools.\n</proposed_plan>",
    )
    .expect("plan artifact");
    let value: serde_json::Value = serde_json::from_str(&artifact.to_json_text()).unwrap();

    assert_eq!(value["kind"].as_str(), Some("proposedPlan"));
    assert_eq!(value["title"].as_str(), Some("Implement Plan Mode"));
    assert!(value["markdown"]
        .as_str()
        .is_some_and(|text| text.contains("readonly tools")));
    assert_eq!(value["version"], 1);
    assert_eq!(value["mode"], "plan");
    assert_eq!(artifact.markdown, "# Implement Plan Mode\n\n- Add readonly tools.");
}

#[test]
fn plan_tags_match_in_any_ascii_case_and_need_content() {
    let plan = extract_proposed_plan_artifact("<PROPOSED_PLAN>  Ship it </Proposed_Plan>").unwrap();
    assert_eq!(plan.markdown, "Ship it");
    assert!(extract_proposed_plan_artifact("<proposed_plan>   </proposed_plan>").is_none());
    assert!(extract_proposed_plan_artifact("<proposed_plan> no end").is_none());
    assert!(extract_proposed_plan_artifact("no plan").is_none());
}

#[test]
fn find_reports_byte_offsets() {
    assert_eq!(find_ascii_case_insensitive("héllo WORLD", "world"), Some(7));
    assert_eq!(find_ascii_case_insensitive("abc", "abcd"), None);
    assert_eq!(find_ascii_case_insensitive("aXbxc", "xC"), Some(3));
}

#[test]
fn plan_title_strips_headings_numbering_and_emphasis() {
    assert_eq!(proposed_plan_title("\n\n## 1) **Goal:**\nrest"), "Goal");
    assert_eq!(proposed_plan_title("#\n***\n  `Build` "), "Build");
    assert_eq!(proposed_plan_title("   \n# \n"), "Proposed plan");
    let long = "x".repeat(120);
    assert_eq!(proposed_plan_title(&long).chars().count(), 96);
}

#[test]
fn verification_status_lines() {
    assert_eq!(verification_artifact_tone(Some("failed")), "error");
    assert_eq!(verification_artifact_tone(Some("passed")), "info");
    assert_eq!(verification_artifact_tone(None), "warning");
    assert_eq!(
        verification_trace_status(true, None),
        "Plan mode audit: read-only planning turn passed."
    );
    assert_eq!(verification_trace_status(false, Some("partial")), "Evidence audit: partial.");
    assert_eq!(verification_trace_status(false, None), "Evidence audit: pending.");
}

#[test]
fn promoted_reasoning_is_detected() {
    assert!(reasoning_was_promoted(false, " same answer ", Some("same answer")));
    assert!(!reasoning_was_promoted(true, "same answer", Some("same answer")));
    assert!(!reasoning_was_promoted(false, "", Some("   ")));
    assert!(!reasoning_was_promoted(false, "answer", Some("thinking")));
    assert!(!reasoning_was_promoted(false, "answer", None));
}

#[test]
fn unfinished_turns_leave_notes() {
    assert_eq!(cancelled_turn_text(""), "Request cancelled by user.");
    assert_eq!(cancelled_turn_text("partial"), "partial\n\n*[Request cancelled by user]*");
    assert_eq!(max_iterations_text(""), "");
    assert!(max_iterations_text("draft").starts_with("draft\n\n*[Note: I used all available tool calls."));
    assert_eq!(
        interrupted_tool_result("run_shell"),
        "Error: tool 'run_shell' was interrupted (cancelled by user)."
    );
}
