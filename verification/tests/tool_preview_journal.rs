use nexa_core::events::ToolRunStatus;
use nexa_core::tool_preview_journal::{
    preview_call_id, preview_received_bytes, PreviewCandidate, ToolPreviewJournal, ToolRunSummary,
};

fn preview(bytes: usize) -> PreviewCandidate<String> {
    PreviewCandidate {
        event: format!("preview {bytes}"),
        tool_run: Some(ToolRunSummary {
            call_id: "call-file".to_string(),
            status: ToolRunStatus::Preparing,
            reported_bytes: Some(bytes as u64),
            arguments_len: Some(bytes),
        }),
    }
}

#[test]
fn token_chunks_collapse_into_bounded_semantic_preview_updates() {
    let started: u64 = 1_000_000;
    let mut journal = ToolPreviewJournal::default();
    let mut emitted = Vec::new();
    for index in 1..=5_000usize {
        let now = started + index as u64 * 10;
        journal.queue(preview(index * 16), now);
        emitted.extend(journal.drain_due(now));
    }
    emitted.extend(journal.drain_all());

    assert!(emitted.len() <= 45, "emitted {} previews", emitted.len());
    assert_eq!(preview_received_bytes(emitted.last().unwrap()), 80_000);
}

#[test]
fn slow_small_preview_emits_a_heartbeat_after_two_seconds() {
    let started: u64 = 5_000;
    let mut journal = ToolPreviewJournal::default();
    journal.queue(preview(32), started);
    assert!(journal.drain_due(started + 1_999).is_empty());
    assert_eq!(journal.drain_due(started + 2_000).len(), 1);
}

#[test]
fn execution_lifecycle_updates_never_enter_the_preview_journal() {
    let started: u64 = 0;
    let mut journal = ToolPreviewJournal::default();
    let mut running = preview(32);
    if let Some(run) = running.tool_run.as_mut() {
        run.status = ToolRunStatus::Running;
    } else {
        unreachable!("preview fixture must be a ToolRunUpdated event");
    }

    journal.queue(running, started);

    assert!(journal.drain_all().is_empty());
}

#[test]
fn newer_previews_replace_pending_ones_and_retire_forgets_the_call() {
    let mut journal = ToolPreviewJournal::default();
    journal.queue(preview(10), 0);
    journal.queue(preview(20), 1);
    let mut other = preview(5);
    other.tool_run.as_mut().unwrap().call_id = "other".to_string();
    journal.queue(other, 1);
    journal.retire("other");
    let all = journal.drain_all();
    assert_eq!(all.len(), 1);
    assert_eq!(all[0].event, "preview 20");
    assert!(journal.drain_due(10_000).is_empty());
}

#[test]
fn growth_of_two_kibibytes_is_due_at_once() {
    let mut journal = ToolPreviewJournal::default();
    journal.queue(preview(2_048), 100);
    assert_eq!(journal.drain_due(100).len(), 1);
    journal.queue(preview(3_000), 200);
    assert!(journal.drain_due(200).is_empty());
    journal.reset();
    assert!(journal.drain_all().is_empty());
}

#[test]
fn received_bytes_fall_back_to_the_arguments() {
    let mut p = preview(7);
    p.tool_run.as_mut().unwrap().reported_bytes = None;
    p.tool_run.as_mut().unwrap().arguments_len = Some(11);
    assert_eq!(preview_received_bytes(&p), 11);
    p.tool_run.as_mut().unwrap().arguments_len = None;
    assert_eq!(preview_received_bytes(&p), 0);
    assert_eq!(preview_call_id(&p), Some("call-file"));
    let plain: PreviewCandidate<String> = PreviewCandidate { event: "text".into(), tool_run: None };
    assert_eq!(preview_call_id(&plain), None);
    assert_eq!(preview_received_bytes(&plain), 0);
}
