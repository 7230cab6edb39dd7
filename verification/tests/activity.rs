use nexa_core::activity::{
    ActivitySpec, ActivityState, ActivitySurface, ActivityEntry, ActivityEvent, ActivityRecord, ActivityEventKind, recover_events, DEFAULT_MAX_EVENTS_PER_ACTIVITY,
};
use nexa_core::events::ToolRunStatus;

#[test]
fn terminal_states_are_exactly_the_final_ones() {
    let terminal = [
        ActivityState::Completed,
        ActivityState::Failed,
        ActivityState::Cancelled,
        ActivityState::Orphaned,
        ActivityState::Superseded,
        ActivityState::TimedOut,
    ];
    let live = [
        ActivityState::Queued,
        ActivityState::Starting,
        ActivityState::Running,
        ActivityState::Ready,
        ActivityState::WaitingInput,
        ActivityState::Quiet,
        ActivityState::Suspended,
        ActivityState::Cancelling,
    ];
    assert!(terminal.iter().all(|s| s.is_terminal()));
    assert!(live.iter().all(|s| !s.is_terminal()));
}

#[test]
fn new_spec_has_a_fresh_activity_id_and_builders_set_links() {
    let spec = ActivitySpec::new(ActivitySurface::Terminal, "terminal_session".to_string());
    assert!(spec.activity_id.starts_with("act_"));
    assert_eq!(spec.activity_id.len(), 40);
    assert_eq!(&spec.activity_id[12..13], "-");
    assert_eq!(&spec.activity_id[18..19], "4");
    let other = ActivitySpec::new(ActivitySurface::Terminal, "terminal_session".to_string());
    assert_ne!(spec.activity_id, other.activity_id);
    assert_eq!(spec.owner_tool, "terminal_session");
    assert_eq!(spec.session_id, None);

    let spec = spec
        .with_activity_id("act_fixed".to_string())
        .with_session_id("s".to_string())
        .with_conversation_id("c".to_string())
        .with_turn_id("t".to_string())
        .with_task_run_id("r".to_string())
        .with_parent_activity_id("p".to_string())
        .with_workspace_id("w".to_string())
        .with_cwd("/tmp".to_string());
    assert_eq!(spec.activity_id, "act_fixed");
    assert_eq!(spec.session_id.as_deref(), Some("s"));
    assert_eq!(spec.conversation_id.as_deref(), Some("c"));
    assert_eq!(spec.turn_id.as_deref(), Some("t"));
    assert_eq!(spec.task_run_id.as_deref(), Some("r"));
    assert_eq!(spec.parent_activity_id.as_deref(), Some("p"));
    assert_eq!(spec.workspace_id.as_deref(), Some("w"));
    assert_eq!(spec.cwd.as_deref(), Some("/tmp"));
    assert_eq!(spec.surface, ActivitySurface::Terminal);
}

#[test]
fn tool_run_status_wire_names() {
    assert_eq!(ToolRunStatus::Preparing.as_str(), "preparing");
    assert_eq!(ToolRunStatus::ApprovalPending.as_str(), "approval_pending");
    assert_eq!(ToolRunStatus::Running.as_str(), "running");
    assert_eq!(ToolRunStatus::Completed.as_str(), "completed");
    assert_eq!(ToolRunStatus::Failed.as_str(), "failed");
    assert_eq!(ToolRunStatus::Declined.as_str(), "declined");
    assert_eq!(ToolRunStatus::Cancelled.as_str(), "cancelled");
    assert_eq!(ToolRunStatus::TimedOut.as_str(), "timed_out");
}

fn record(id: &str) -> ActivityRecord {
    let spec = ActivitySpec::new(ActivitySurface::Process, "run_shell".to_string())
        .with_activity_id(id.to_string());
    ActivityRecord::from_spec(spec, 1_000)
}

fn event(seq: u64) -> ActivityEvent {
    ActivityEvent {
        activity_id: "act".to_string(),
        seq,
        timestamp_ms: 1_000 + seq as i64,
        kind: ActivityEventKind::StdoutChunk,
        payload: format!("{{\"data\":\"{seq}\"}}"),
    }
}

#[test]
fn records_start_running_without_events() {
    let r = record("act");
    assert_eq!(r.state, ActivityState::Running);
    assert_eq!(r.started_at_ms, 1_000);
    assert_eq!(r.updated_at_ms, 1_000);
    assert_eq!(r.last_event_seq, 0);
    assert_eq!(r.completed_at_ms, None);
    assert_eq!(r.owner_tool, "run_shell");
}

#[test]
fn journal_bounds_replay_without_resetting_the_cursor() {
    let mut entry = ActivityEntry::new(record("act"));
    for seq in 1..=2_055u64 {
        entry.push(event(seq), DEFAULT_MAX_EVENTS_PER_ACTIVITY);
    }
    assert_eq!(entry.events.len(), 2_048);
    assert_eq!(entry.events[0].seq, 8);
    assert_eq!(entry.record.last_event_seq, 2_055);
    assert_eq!(entry.record.updated_at_ms, 3_055);
    let replay = entry.events_after(2_050);
    assert_eq!(replay.iter().map(|e| e.seq).collect::<Vec<_>>(), vec![2_051, 2_052, 2_053, 2_054, 2_055]);
    assert!(entry.events_after(2_056).is_empty());
    entry.push(event(2_056), 0);
    assert_eq!(entry.events.len(), 1);
}

#[test]
fn recovered_events_stop_at_the_record_and_keep_the_newest() {
    let events: Vec<ActivityEvent> = (1..=2_060u64).map(event).collect();
    let kept = recover_events(events, 2_055);
    assert_eq!(kept.len(), 2_048);
    assert_eq!(kept[0].seq, 8);
    assert_eq!(kept.last().unwrap().seq, 2_055);
    let few = recover_events(vec![event(3), event(1), event(9)], 5);
    assert_eq!(few.iter().map(|e| e.seq).collect::<Vec<_>>(), vec![3, 1]);
}
