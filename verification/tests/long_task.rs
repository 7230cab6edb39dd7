use nexa_core::llm::{Message, Role};
use nexa_core::long_task::{
    compact_items, LongTaskState, TaskPlanStep, TaskPlanSummary, LONG_TASK_RECITATION_PREFIX,
};

/// The task plan of the request "compare local notes" (a file operation over
/// two sources): objective, steps and ledger as the planner states them.
fn plan() -> TaskPlanSummary {
    TaskPlanSummary {
        objective: "compare local notes".to_string(),
        steps: vec![
            TaskPlanStep { title: "Locate the notes".to_string(), status: "Completed".to_string() },
            TaskPlanStep { title: "Compare the notes".to_string(), status: "InProgress".to_string() },
            TaskPlanStep { title: "Summarize differences".to_string(), status: "Pending".to_string() },
        ],
        sufficiency: "partial".to_string(),
        open_questions: vec!["  ".to_string(), " Which notes are newer? ".to_string()],
        safeguards: vec![],
    }
}

#[test]
fn recitation_is_replaced_not_accumulated() {
    let state = LongTaskState::new();
    let plan = plan();
    let mut messages = vec![Message::text(Role::System, "root system".to_string())];

    state.refresh_plan_recitation(&mut messages, &plan, 1, 10, false);
    state.refresh_plan_recitation(&mut messages, &plan, 2, 10, false);

    let recitations = messages
        .iter()
        .filter(|message| message.text_content().starts_with(LONG_TASK_RECITATION_PREFIX))
        .collect::<Vec<_>>();
    assert_eq!(recitations.len(), 1);
    let recitation = recitations[0].text_content();
    assert!(recitation.contains("Iteration: 3/10"));
    assert!(recitation.contains(&plan.objective));
}

#[test]
fn recitation_can_preserve_prefix_by_appending() {
    let state = LongTaskState::new();
    let plan = plan();
    let mut messages = vec![Message::text(Role::System, "root system".to_string())];

    state.refresh_plan_recitation(&mut messages, &plan, 1, 10, true);
    let first = messages
        .iter()
        .map(|message| (message.role, message.text_content()))
        .collect::<Vec<_>>();
    state.refresh_plan_recitation(&mut messages, &plan, 2, 10, true);
    let prefix = messages
        .iter()
        .take(first.len())
        .map(|message| (message.role, message.text_content()))
        .collect::<Vec<_>>();

    assert_eq!(messages.len(), first.len() + 1);
    assert_eq!(prefix, first);
}

#[test]
fn checkpoint_cadence_tracks_completed_tool_rounds() {
    let mut state = LongTaskState::new();

    assert!(!state.should_checkpoint_after_tool_round(0));
    assert!(!state.should_checkpoint_after_tool_round(1));
    assert!(state.should_checkpoint_after_tool_round(2));

    state.record_checkpoint(2);
    assert!(!state.should_checkpoint_after_tool_round(2));
    assert!(!state.should_checkpoint_after_tool_round(3));
    assert!(!state.should_checkpoint_after_tool_round(4));
    assert!(state.should_checkpoint_after_tool_round(5));
}

#[test]
fn recitation_text_reports_progress_and_current_step() {
    let text = LongTaskState::new().plan_recitation(&plan(), 0, 8);
    assert!(text.starts_with("## Long Task Control State\nThis rolling control note"));
    assert!(text.contains("\n\nObjective: compare local notes\nIteration: 1/8\n"));
    assert!(text.contains(
        "Plan progress: 1/3 steps completed; current: Compare the notes (InProgress)\n"
    ));
    assert!(text.contains(
        "Evidence sufficiency: partial; open questions: Which notes are newer?\nSafeguards: none\n"
    ));
    assert!(text.ends_with("name any remaining gaps."));

    let mut done = plan();
    for step in &mut done.steps {
        step.status = "Completed".to_string();
    }
    assert!(LongTaskState::new()
        .plan_recitation(&done, 4, 8)
        .contains("3/3 steps completed; current: all planned steps completed"));
}

#[test]
fn first_iteration_leaves_messages_alone_and_recitations_of_users_survive() {
    let state = LongTaskState::new();
    let mut messages = vec![
        Message::text(Role::User, "## Long Task Control State (quoted)".to_string()),
        Message::text(Role::System, "## Long Task Control State\nold".to_string()),
    ];
    state.refresh_plan_recitation(&mut messages, &plan(), 0, 10, false);
    assert_eq!(messages.len(), 2);
    state.refresh_plan_recitation(&mut messages, &plan(), 1, 10, false);
    assert_eq!(messages.len(), 2);
    assert_eq!(messages[0].role, Role::User);
    assert!(messages[1].text_content().contains("Iteration: 2/10"));
}

#[test]
fn compact_items_keeps_three_trimmed_items() {
    let items: Vec<String> = [" a ", "", "b", "  ", "c", "d"].iter().map(|s| s.to_string()).collect();
    assert_eq!(compact_items(&items, "none"), "a; b; c");
    assert_eq!(compact_items(&[" ".to_string()], "none"), "none");
    assert_eq!(compact_items(&[], "fallback"), "fallback");
}
