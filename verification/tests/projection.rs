use nexa_core::events::StreamBlockChannel;
use nexa_core::projection::{Projection, ProjectionEmit, ProjectionError};
use nexa_core::session_events::{
    classify_session_event, event_budget_exceeded, idle_after_event, steering_budget_exceeded,
    SessionEventAction, SessionEventFields,
};
use nexa_core::string_map::StringMap;

fn delta(
    p: &mut Projection,
    sent: &mut Vec<ProjectionEmit>,
    id: &str,
    channel: StreamBlockChannel,
    text: &str,
) -> Result<(), ProjectionError> {
    if let Some(event) = p.delta_event(id, channel, text)? {
        sent.push(event);
        p.commit_delta(id, channel, text);
    }
    Ok(())
}

fn complete(p: &mut Projection, sent: &mut Vec<ProjectionEmit>, id: &str, text: &str) -> Result<(), ProjectionError> {
    if let Some(event) = p.complete_event(id, text)? {
        sent.push(event);
    }
    p.commit_complete(id, text);
    p.select_answer_blocks(vec![id.to_string()])
}

#[test]
fn full_records_replace_corrupt_prefixes_and_repeated_revisions() {
    let mut sent = Vec::new();
    let mut projection = Projection::new();
    delta(&mut projection, &mut sent, "a", StreamBlockChannel::Answer, "你错").unwrap();
    complete(&mut projection, &mut sent, "a", "你好🙂").unwrap();
    complete(&mut projection, &mut sent, "a", "修正🙂").unwrap();
    assert_eq!(projection.draft("a").unwrap(), "修正🙂");
    assert_eq!(projection.draft_bytes(), "修正🙂".len());
    assert!(matches!(sent[0], ProjectionEmit::Delta { .. }));
    for (event, expected) in sent[1..].iter().zip(["你好🙂", "修正🙂"]) {
        assert!(matches!(event, ProjectionEmit::Snapshot { text, .. } if text == expected));
    }
    assert_eq!(sent.len(), 3);
    complete(&mut projection, &mut sent, "a", "修正🙂").unwrap();
    assert_eq!(sent.len(), 3, "identical full records are idempotent");
}

#[test]
fn full_record_appends_only_a_verified_prefix_suffix() {
    let mut sent = Vec::new();
    let mut projection = Projection::new();
    delta(&mut projection, &mut sent, "a", StreamBlockChannel::Answer, "你").unwrap();
    complete(&mut projection, &mut sent, "a", "你好🙂").unwrap();
    assert!(matches!(&sent[1], ProjectionEmit::Delta { offset: 3, delta, .. } if delta == "好🙂"));
    assert_eq!(projection.draft_bytes(), "你好🙂".len());
    assert_eq!(projection.answer, "你好🙂");
}

#[test]
fn disconnected_answer_deltas_survive_reload_without_reasoning_or_duplicate_questions() {
    let mut sent = Vec::new();
    let mut projection = Projection::new();
    delta(&mut projection, &mut sent, "thought", StreamBlockChannel::Thinking, "private reasoning").unwrap();
    delta(&mut projection, &mut sent, "question", StreamBlockChannel::Answer, "already stored question").unwrap();
    projection.mark_persisted("question");
    delta(&mut projection, &mut sent, "answer", StreamBlockChannel::Answer, "半个").unwrap();
    delta(&mut projection, &mut sent, "answer", StreamBlockChannel::Answer, "回答").unwrap();
    assert!(projection.answer.is_empty(), "there was no full-message event");
    assert_eq!(projection.partial_text(), "半个回答");
    assert!(matches!(&sent[3], ProjectionEmit::Delta { offset: 6, .. }));
}

#[test]
fn completed_answer_is_persisted_once() {
    let mut sent = Vec::new();
    let mut projection = Projection::new();
    complete(&mut projection, &mut sent, "first", "first response").unwrap();
    assert_eq!(projection.completed_answer().unwrap(), "first response");
    projection.answer_persisted();
    assert!(projection.completed_answer().is_none());
    assert_eq!(projection.draft_bytes(), 0);
    delta(&mut projection, &mut sent, "second", StreamBlockChannel::Answer, "partial follow-up").unwrap();
    assert_eq!(projection.partial_text(), "partial follow-up");
}

#[test]
fn completed_blocks_ignore_later_deltas_and_selection_checks_blocks() {
    let mut sent = Vec::new();
    let mut projection = Projection::new();
    complete(&mut projection, &mut sent, "a", "done").unwrap();
    let before = sent.len();
    delta(&mut projection, &mut sent, "a", StreamBlockChannel::Answer, "late").unwrap();
    assert_eq!(sent.len(), before);
    assert_eq!(
        projection.select_answer_blocks(vec!["b".to_string()]),
        Err(ProjectionError::IncompleteBlock)
    );
    assert_eq!(projection.answer, "done");
    complete(&mut projection, &mut sent, "b", "").unwrap();
    projection.mark_persisted("b");
    assert_eq!(
        projection.select_answer_blocks(vec!["a".to_string(), "b".to_string()]),
        Err(ProjectionError::MissingBlock)
    );
    complete(&mut projection, &mut sent, "c", "more").unwrap();
    projection.select_answer_blocks(vec!["a".to_string(), "c".to_string()]).unwrap();
    assert_eq!(projection.answer, "done\n\nmore");
    projection.clear_answer();
    assert!(projection.answer.is_empty());
}

#[test]
fn answer_history_stays_within_its_byte_budget() {
    let mut sent = Vec::new();
    let mut projection = Projection::new();
    let big = "x".repeat(4 * 1024 * 1024);
    delta(&mut projection, &mut sent, "a", StreamBlockChannel::Answer, &big).unwrap();
    assert_eq!(
        delta(&mut projection, &mut sent, "b", StreamBlockChannel::Answer, "y"),
        Err(ProjectionError::AnswerHistoryBudget)
    );
    assert_eq!(
        delta(&mut projection, &mut sent, "a", StreamBlockChannel::Thinking, "y"),
        Err(ProjectionError::EventProtocolBound)
    );
    assert_eq!(
        ProjectionError::AnswerHistoryBudget.message(),
        "subscription answer history exceeded its byte budget"
    );
    projection.mark_persisted("a");
    assert_eq!(projection.draft_bytes(), 0);
}

#[test]
fn async_messages_are_persisted_in_order() {
    let mut sent = Vec::new();
    let mut projection = Projection::new();
    delta(&mut projection, &mut sent, "m1", StreamBlockChannel::Answer, "one").unwrap();
    projection.queue_async_message("m1".to_string(), "one".to_string());
    projection.queue_async_message("m2".to_string(), "two".to_string());
    assert_eq!(projection.next_async_message().unwrap().0, "m1");
    projection.async_message_persisted();
    assert_eq!(projection.draft_bytes(), 0);
    assert_eq!(projection.next_async_message().unwrap().1, "two");
    projection.async_message_persisted();
    assert!(projection.next_async_message().is_none());
}

#[test]
fn usage_reports_accumulate_with_saturation() {
    let mut projection = Projection::new();
    projection.record_usage(Some(100), Some(20));
    projection.record_usage(Some(u64::MAX), None);
    assert_eq!(projection.usage.prompt_tokens, u32::MAX);
    assert_eq!(projection.usage.completion_tokens, 20);
    assert_eq!(projection.usage.total_tokens, u32::MAX);
    assert_eq!(projection.last_prompt_tokens, u32::MAX);
}

fn event(id: &str, event_type: &str) -> SessionEventFields {
    SessionEventFields {
        id: id.to_string(),
        from_subagent: false,
        ephemeral: None,
        event_type: event_type.to_string(),
        message_id: None,
        reasoning_id: None,
        delta_content: None,
        content: None,
        has_tool_requests: false,
        input_tokens: None,
        output_tokens: None,
        error_message: None,
    }
}

#[test]
fn session_events_map_to_projection_actions() {
    let mut seen = StringMap::new();
    let mut message = event("e1", "assistant.message_delta");
    message.message_id = Some("m".to_string());
    message.delta_content = Some("hi".to_string());
    assert_eq!(
        classify_session_event(&mut seen, &message),
        SessionEventAction::Delta {
            block_id: "m".to_string(),
            channel: StreamBlockChannel::Answer,
            delta: "hi".to_string()
        }
    );
    assert_eq!(classify_session_event(&mut seen, &message), SessionEventAction::Skip);
    let mut reasoning = event("e2", "assistant.reasoning_delta");
    reasoning.ephemeral = Some(true);
    let expected = SessionEventAction::Delta {
        block_id: "e2".to_string(),
        channel: StreamBlockChannel::Thinking,
        delta: String::new(),
    };
    assert_eq!(classify_session_event(&mut seen, &reasoning), expected);
    assert_eq!(classify_session_event(&mut seen, &reasoning), expected);
    let mut full = event("e3", "assistant.message");
    full.content = Some("answer".to_string());
    full.has_tool_requests = true;
    assert_eq!(
        classify_session_event(&mut seen, &full),
        SessionEventAction::Complete {
            block_id: "e3".to_string(),
            text: "answer".to_string(),
            clears_answer: true
        }
    );
    assert_eq!(
        classify_session_event(&mut seen, &event("e4", "session.error")),
        SessionEventAction::Fail { message: "Copilot session failed".to_string() }
    );
    assert_eq!(
        classify_session_event(&mut seen, &event("e5", "tool.execution_start")),
        SessionEventAction::ClearAnswer
    );
    assert_eq!(classify_session_event(&mut seen, &event("e6", "other")), SessionEventAction::Nothing);
    let mut sub = event("e7", "assistant.message");
    sub.from_subagent = true;
    assert_eq!(classify_session_event(&mut seen, &sub), SessionEventAction::Skip);
    assert_eq!(seen.len(), 5);
    assert!(!event_budget_exceeded(&seen));
}

#[test]
fn idle_tracking_and_steering_budget() {
    let seen: StringMap<bool> = StringMap::new();
    assert!(idle_after_event(false, &seen, &event("a", "session.idle")));
    assert!(!idle_after_event(true, &seen, &event("b", "assistant.turn_start")));
    assert!(idle_after_event(true, &seen, &event("c", "assistant.usage")));
    assert!(steering_budget_exceeded(64, 0));
    assert!(steering_budget_exceeded(0, 256 * 1024 + 1));
    assert!(!steering_budget_exceeded(63, 256 * 1024));
}
