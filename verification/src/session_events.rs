//! What each event of a subscription session means for the turn's
//! projection, and the decisions of the loop that reads them.

use vstd::prelude::*;

use crate::events::StreamBlockChannel;
use crate::llm::opt_view;
use crate::string_map::StringMap;
use crate::text::str_eq;

verus! {

/// Events a turn may see before it stops.
pub const MAX_SEEN_EVENTS: usize = 8192;

/// Steering messages that may wait, and the bytes one may hold.
pub const MAX_QUEUED_STEERING: usize = 64;

pub const MAX_STEERING_BYTES: usize = 262144;

/// What the projection reads of a session event.
#[derive(Debug, Clone)]
pub struct SessionEventFields {
    pub id: String,
    /// The event belongs to a sub-agent.
    pub from_subagent: bool,
    pub ephemeral: Option<bool>,
    pub event_type: String,
    /// The data's `messageId`, `reasoningId`, `deltaContent` and `content`
    /// when they are strings.
    pub message_id: Option<String>,
    pub reasoning_id: Option<String>,
    pub delta_content: Option<String>,
    pub content: Option<String>,
    /// The data's `toolRequests` is a non-empty array.
    pub has_tool_requests: bool,
    /// The data's `inputTokens` and `outputTokens` when they are unsigned
    /// integers.
    pub input_tokens: Option<u64>,
    pub output_tokens: Option<u64>,
    /// The data's `message` when it is a string.
    pub error_message: Option<String>,
}

/// What to do with a session event.
#[derive(Debug, Clone, PartialEq, Eq)]
pub enum SessionEventAction {
    /// Not this turn's, or seen before: nothing, not even the budget check.
    Skip,
    /// Stream a delta of a block.
    Delta { block_id: String, channel: StreamBlockChannel, delta: String },
    /// Complete a block with its full record, then select it as the answer;
    /// clear the answer again when the message asks for tools.
    Complete { block_id: String, text: String, clears_answer: bool },
    /// A tool started: the answer so far is not final.
    ClearAnswer,
    /// Add a usage report.
    Usage { input_tokens: Option<u64>, output_tokens: Option<u64> },
    /// The session failed with this message.
    Fail { message: String },
    /// Nothing to do.
    Nothing,
}

pub enum ActionView {
    Skip,
    Delta(Seq<char>, StreamBlockChannel, Seq<char>),
    Complete(Seq<char>, Seq<char>, bool),
    ClearAnswer,
    Usage(Option<u64>, Option<u64>),
    Fail(Seq<char>),
    Nothing,
}

impl View for SessionEventAction {
    type V = ActionView;

    open spec fn view(&self) -> ActionView {
        match self {
            SessionEventAction::Skip => ActionView::Skip,
            SessionEventAction::Delta { block_id, channel, delta } => ActionView::Delta(
                block_id@,
                *channel,
                delta@,
            ),
            SessionEventAction::Complete { block_id, text, clears_answer } => ActionView::Complete(
                block_id@,
                text@,
                *clears_answer,
            ),
            SessionEventAction::ClearAnswer => ActionView::ClearAnswer,
            SessionEventAction::Usage { input_tokens, output_tokens } => ActionView::Usage(
                *input_tokens,
                *output_tokens,
            ),
            SessionEventAction::Fail { message } => ActionView::Fail(message@),
            SessionEventAction::Nothing => ActionView::Nothing,
        }
    }
}

pub open spec fn or_else(o: Option<Seq<char>>, d: Seq<char>) -> Seq<char> {
    match o {
        Some(s) => s,
        None => d,
    }
}

/// What an event of a given type asks for.
pub open spec fn action_for(e: SessionEventFields) -> ActionView {
    let t = e.event_type@;
    if t == "assistant.message_delta"@ {
        ActionView::Delta(
            or_else(opt_view(e.message_id), e.id@),
            StreamBlockChannel::Answer,
            or_else(opt_view(e.delta_content), Seq::empty()),
        )
    } else if t == "assistant.reasoning_delta"@ {
        ActionView::Delta(
            or_else(opt_view(e.reasoning_id), e.id@),
            StreamBlockChannel::Thinking,
            or_else(opt_view(e.delta_content), Seq::empty()),
        )
    } else if t == "assistant.message"@ {
        ActionView::Complete(
            or_else(opt_view(e.message_id), e.id@),
            or_else(opt_view(e.content), Seq::empty()),
            e.has_tool_requests,
        )
    } else if t == "tool.execution_start"@ {
        ActionView::ClearAnswer
    } else if t == "assistant.usage"@ {
        ActionView::Usage(e.input_tokens, e.output_tokens)
    } else if t == "session.error"@ {
        ActionView::Fail(or_else(opt_view(e.error_message), "Copilot session failed"@))
    } else {
        ActionView::Nothing
    }
}

/// A session event: sub-agent events and repeated events are skipped (an
/// ephemeral event is never recorded as seen); the others are recorded and
/// mean what their type says.
pub open spec fn session_step(seen: Set<Seq<char>>, e: SessionEventFields) -> (Set<Seq<char>>, ActionView) {
    if e.from_subagent {
        (seen, ActionView::Skip)
    } else if e.ephemeral != Some(true) && seen.contains(e.id@) {
        (seen, ActionView::Skip)
    } else {
        (
            if e.ephemeral != Some(true) {
                seen.insert(e.id@)
            } else {
                seen
            },
            action_for(e),
        )
    }
}

fn pick(o: &Option<String>, fallback: &str) -> (s: String)
    ensures
        s@ == or_else(opt_view(*o), fallback@),
{
    let mut s = String::new();
    match o {
        Some(v) => s.append(v.as_str()),
        None => s.append(fallback),
    }
    s
}

fn pick_or_empty(o: &Option<String>) -> (s: String)
    ensures
        s@ == or_else(opt_view(*o), Seq::empty()),
{
    match o {
        Some(v) => v.clone(),
        None => String::new(),
    }
}

fn action_for_exec(e: &SessionEventFields) -> (a: SessionEventAction)
    ensures
        a@ == action_for(*e),
{
    let t = e.event_type.as_str();
    if str_eq(t, "assistant.message_delta") {
        SessionEventAction::Delta {
            block_id: pick(&e.message_id, e.id.as_str()),
            channel: StreamBlockChannel::Answer,
            delta: pick_or_empty(&e.delta_content),
        }
    } else if str_eq(t, "assistant.reasoning_delta") {
        SessionEventAction::Delta {
            block_id: pick(&e.reasoning_id, e.id.as_str()),
            channel: StreamBlockChannel::Thinking,
            delta: pick_or_empty(&e.delta_content),
        }
    } else if str_eq(t, "assistant.message") {
        SessionEventAction::Complete {
            block_id: pick(&e.message_id, e.id.as_str()),
            text: pick_or_empty(&e.content),
            clears_answer: e.has_tool_requests,
        }
    } else if str_eq(t, "tool.execution_start") {
        SessionEventAction::ClearAnswer
    } else if str_eq(t, "assistant.usage") {
        SessionEventAction::Usage { input_tokens: e.input_tokens, output_tokens: e.output_tokens }
    } else if str_eq(t, "session.error") {
        SessionEventAction::Fail { message: pick(&e.error_message, "Copilot session failed") }
    } else {
        SessionEventAction::Nothing
    }
}

/// Classifies a session event and records it as seen; see
/// [`session_step`].
pub fn classify_session_event(seen: &mut StringMap<bool>, event: &SessionEventFields) -> (a: SessionEventAction)
    requires
        old(seen).wf(),
    ensures
        final(seen).wf(),
        (final(seen).map().dom(), a@) == session_step(old(seen).map().dom(), *event),
{
    if event.from_subagent {
        return SessionEventAction::Skip;
    }
    let ephemeral = match event.ephemeral {
        Some(true) => true,
        _ => false,
    };
    if !ephemeral {
        if seen.contains_key(event.id.as_str()) {
            return SessionEventAction::Skip;
        }
        let ghost before = seen.map();
        seen.insert(event.id.as_str(), true);
        assert(seen.map().dom() =~= before.dom().insert(event.id@));
    }
    action_for_exec(event)
}

/// The turn saw more events than it may.
pub fn event_budget_exceeded(seen: &StringMap<bool>) -> (b: bool)
    requires
        seen.wf(),
    ensures
        b == (seen.map().dom().len() > MAX_SEEN_EVENTS),
{
    seen.len() > MAX_SEEN_EVENTS
}

/// Whether the session is idle after an event: a new event of this turn
/// makes it idle when it is `session.idle`, busy when a turn, message delta
/// or tool starts; other events leave it as it was.
pub open spec fn idle_after(idle: bool, seen: Set<Seq<char>>, e: SessionEventFields) -> bool {
    if !e.from_subagent && !seen.contains(e.id@) {
        let t = e.event_type@;
        if t == "session.idle"@ {
            true
        } else if t == "assistant.turn_start"@ || t == "assistant.message_delta"@ || t
            == "tool.execution_start"@ {
            false
        } else {
            idle
        }
    } else {
        idle
    }
}

pub fn idle_after_event(idle: bool, seen: &StringMap<bool>, event: &SessionEventFields) -> (b: bool)
    requires
        seen.wf(),
    ensures
        b == idle_after(idle, seen.map().dom(), *event),
{
    if !event.from_subagent && !seen.contains_key(event.id.as_str()) {
        let t = event.event_type.as_str();
        if str_eq(t, "session.idle") {
            return true;
        }
        if str_eq(t, "assistant.turn_start") || str_eq(t, "assistant.message_delta") || str_eq(
            t,
            "tool.execution_start",
        ) {
            return false;
        }
    }
    idle
}

/// A steering message cannot be queued: the queue is full or the message
/// is too large.
pub fn steering_budget_exceeded(queued: usize, content_bytes: usize) -> (b: bool)
    ensures
        b == (queued >= MAX_QUEUED_STEERING || content_bytes > MAX_STEERING_BYTES),
{
    queued >= MAX_QUEUED_STEERING || content_bytes > MAX_STEERING_BYTES
}

/// An event of this turn is acted on once: after it was classified, the
/// same event (unless ephemeral) is skipped.
pub proof fn law_repeated_events_are_skipped(seen: Set<Seq<char>>, e: SessionEventFields)
    requires
        e.ephemeral != Some(true),
    ensures
        session_step(session_step(seen, e).0, e).1 == ActionView::Skip,
{
}

} // verus!
