//! Long-running activities (processes, terminals, browser and desktop
//! sessions) and their life-cycle states.

use vstd::prelude::*;

verus! {

/// Where an activity runs.
#[derive(Debug, Clone, Copy, PartialEq, Eq, Hash, Structural)]
pub enum ActivitySurface {
    Process,
    Terminal,
    Browser,
    Desktop,
    Maintenance,
}

/// Life-cycle state of an activity.
#[derive(Debug, Clone, Copy, PartialEq, Eq, Hash, Structural)]
pub enum ActivityState {
    Queued,
    Starting,
    Running,
    Ready,
    WaitingInput,
    Quiet,
    Suspended,
    Cancelling,
    Completed,
    Failed,
    Cancelled,
    Orphaned,
    Superseded,
    TimedOut,
}

/// The states an activity never leaves.
pub open spec fn state_is_terminal(s: ActivityState) -> bool {
    match s {
        ActivityState::Completed | ActivityState::Failed | ActivityState::Cancelled
        | ActivityState::Orphaned | ActivityState::Superseded | ActivityState::TimedOut => true,
        _ => false,
    }
}

impl ActivityState {
    pub fn is_terminal(self) -> (b: bool)
        ensures
            b == state_is_terminal(self),
    {
        match self {
            ActivityState::Completed | ActivityState::Failed | ActivityState::Cancelled
            | ActivityState::Orphaned | ActivityState::Superseded | ActivityState::TimedOut => true,
            _ => false,
        }
    }
}

/// What an activity event reports.
#[derive(Debug, Clone, Copy, PartialEq, Eq, Hash, Structural)]
pub enum ActivityEventKind {
    Started,
    StdoutChunk,
    StderrChunk,
    Progress,
    ReadyUrl,
    CwdChanged,
    CommandStarted,
    CommandFinished,
    PromptDetected,
    InputRequested,
    BrowserObservation,
    DesktopObservation,
    StateChanged,
    Completed,
    Failed,
    Cancelled,
}

/// A lower-case hexadecimal digit.
pub open spec fn is_lower_hex(c: char) -> bool {
    ('0' <= c && c <= '9') || ('a' <= c && c <= 'f')
}

/// The hyphenated text of a version-4 UUID: 36 characters, hyphens at
/// positions 8, 13, 18 and 23, the version digit `4` at position 14, and
/// lower-case hexadecimal digits elsewhere.
pub open spec fn is_v4_uuid_text(s: Seq<char>) -> bool {
    &&& s.len() == 36
    &&& forall|i: int|
        0 <= i < 36 ==> if i == 8 || i == 13 || i == 18 || i == 23 {
            s[i] == '-'
        } else {
            is_lower_hex(#[trigger] s[i])
        }
    &&& s[14] == '4'
}

/// A fresh random UUID (`uuid::Uuid::new_v4`) in its hyphenated text form.
/// Which UUID comes out is left open; its shape is what the uuid crate's
/// formatter writes.
#[verifier::external_body]
fn new_v4_uuid_text() -> (s: String)
    ensures
        is_v4_uuid_text(s@),
{
    uuid::Uuid::new_v4().to_string()
}

/// What an activity is and where it belongs.
#[derive(Debug, Clone, PartialEq, Eq)]
pub struct ActivitySpec {
    pub activity_id: String,
    pub session_id: Option<String>,
    pub surface: ActivitySurface,
    pub conversation_id: Option<String>,
    pub turn_id: Option<String>,
    pub task_run_id: Option<String>,
    pub parent_activity_id: Option<String>,
    pub owner_tool: String,
    pub workspace_id: Option<String>,
    pub cwd: Option<String>,
}

/// The id given to a new activity: `act_` and a random UUID.
pub open spec fn is_generated_activity_id(id: Seq<char>) -> bool {
    id.len() == 40 && id.take(4) == "act_"@ && is_v4_uuid_text(id.skip(4))
}

impl ActivitySpec {
    /// A spec with a fresh id and no links.
    pub fn new(surface: ActivitySurface, owner_tool: String) -> (r: ActivitySpec)
        ensures
            is_generated_activity_id(r.activity_id@),
            r.surface == surface,
            r.owner_tool@ == owner_tool@,
            r.session_id is None,
            r.conversation_id is None,
            r.turn_id is None,
            r.task_run_id is None,
            r.parent_activity_id is None,
            r.workspace_id is None,
            r.cwd is None,
    {
        let uuid = new_v4_uuid_text();
        let mut activity_id = String::new();
        activity_id.append("act_");
        activity_id.append(uuid.as_str());
        proof {
            reveal_strlit("act_");
            assert(activity_id@.take(4) =~= "act_"@);
            assert(activity_id@.skip(4) =~= uuid@);
        }
        ActivitySpec {
            activity_id,
            session_id: None,
            surface,
            conversation_id: None,
            turn_id: None,
            task_run_id: None,
            parent_activity_id: None,
            owner_tool,
            workspace_id: None,
            cwd: None,
        }
    }

    pub fn with_activity_id(self, activity_id: String) -> (r: ActivitySpec)
        ensures
            r == (ActivitySpec { activity_id, ..self }),
    {
        ActivitySpec { activity_id, ..self }
    }

    pub fn with_session_id(self, session_id: String) -> (r: ActivitySpec)
        ensures
            r == (ActivitySpec { session_id: Some(session_id), ..self }),
    {
        ActivitySpec { session_id: Some(session_id), ..self }
    }

    pub fn with_conversation_id(self, conversation_id: String) -> (r: ActivitySpec)
        ensures
            r == (ActivitySpec { conversation_id: Some(conversation_id), ..self }),
    {
        ActivitySpec { conversation_id: Some(conversation_id), ..self }
    }

    pub fn with_turn_id(self, turn_id: String) -> (r: ActivitySpec)
        ensures
            r == (ActivitySpec { turn_id: Some(turn_id), ..self }),
    {
        ActivitySpec { turn_id: Some(turn_id), ..self }
    }

    pub fn with_task_run_id(self, task_run_id: String) -> (r: ActivitySpec)
        ensures
            r == (ActivitySpec { task_run_id: Some(task_run_id), ..self }),
    {
        ActivitySpec { task_run_id: Some(task_run_id), ..self }
    }

    pub fn with_parent_activity_id(self, parent_activity_id: String) -> (r: ActivitySpec)
        ensures
            r == (ActivitySpec { parent_activity_id: Some(parent_activity_id), ..self }),
    {
        ActivitySpec { parent_activity_id: Some(parent_activity_id), ..self }
    }

    pub fn with_workspace_id(self, workspace_id: String) -> (r: ActivitySpec)
        ensures
            r == (ActivitySpec { workspace_id: Some(workspace_id), ..self }),
    {
        ActivitySpec { workspace_id: Some(workspace_id), ..self }
    }

    pub fn with_cwd(self, cwd: String) -> (r: ActivitySpec)
        ensures
            r == (ActivitySpec { cwd: Some(cwd), ..self }),
    {
        ActivitySpec { cwd: Some(cwd), ..self }
    }
}

/// Events an activity keeps for replay.
pub const DEFAULT_MAX_EVENTS_PER_ACTIVITY: usize = 2048;

/// What is known of an activity. Times are milliseconds since the Unix
/// epoch.
#[derive(Debug, Clone, PartialEq, Eq)]
pub struct ActivityRecord {
    pub activity_id: String,
    pub session_id: Option<String>,
    pub surface: ActivitySurface,
    pub state: ActivityState,
    pub conversation_id: Option<String>,
    pub turn_id: Option<String>,
    pub task_run_id: Option<String>,
    pub parent_activity_id: Option<String>,
    pub owner_tool: String,
    pub workspace_id: Option<String>,
    pub cwd: Option<String>,
    pub started_at_ms: i64,
    pub updated_at_ms: i64,
    pub completed_at_ms: Option<i64>,
    pub last_event_seq: u64,
}

impl ActivityRecord {
    /// A running activity started now, with no events yet.
    pub fn from_spec(spec: ActivitySpec, now_ms: i64) -> (r: ActivityRecord)
        ensures
            r == (ActivityRecord {
                activity_id: spec.activity_id,
                session_id: spec.session_id,
                surface: spec.surface,
                state: ActivityState::Running,
                conversation_id: spec.conversation_id,
                turn_id: spec.turn_id,
                task_run_id: spec.task_run_id,
                parent_activity_id: spec.parent_activity_id,
                owner_tool: spec.owner_tool,
                workspace_id: spec.workspace_id,
                cwd: spec.cwd,
                started_at_ms: now_ms,
                updated_at_ms: now_ms,
                completed_at_ms: None,
                last_event_seq: 0,
            }),
    {
        ActivityRecord {
            activity_id: spec.activity_id,
            session_id: spec.session_id,
            surface: spec.surface,
            state: ActivityState::Running,
            conversation_id: spec.conversation_id,
            turn_id: spec.turn_id,
            task_run_id: spec.task_run_id,
            parent_activity_id: spec.parent_activity_id,
            owner_tool: spec.owner_tool,
            workspace_id: spec.workspace_id,
            cwd: spec.cwd,
            started_at_ms: now_ms,
            updated_at_ms: now_ms,
            completed_at_ms: None,
            last_event_seq: 0,
        }
    }
}

/// One event of an activity; `payload` is its JSON text.
#[derive(Debug, Clone, PartialEq, Eq)]
pub struct ActivityEvent {
    pub activity_id: String,
    pub seq: u64,
    pub timestamp_ms: i64,
    pub kind: ActivityEventKind,
    pub payload: String,
}

pub struct ActivityEventView {
    pub activity_id: Seq<char>,
    pub seq: u64,
    pub timestamp_ms: i64,
    pub kind: ActivityEventKind,
    pub payload: Seq<char>,
}

impl View for ActivityEvent {
    type V = ActivityEventView;

    open spec fn view(&self) -> ActivityEventView {
        ActivityEventView {
            activity_id: self.activity_id@,
            seq: self.seq,
            timestamp_ms: self.timestamp_ms,
            kind: self.kind,
            payload: self.payload@,
        }
    }
}

impl ActivityEvent {
    pub fn duplicate(&self) -> (r: ActivityEvent)
        ensures
            r@ == self@,
    {
        ActivityEvent {
            activity_id: self.activity_id.clone(),
            seq: self.seq,
            timestamp_ms: self.timestamp_ms,
            kind: self.kind,
            payload: self.payload.clone(),
        }
    }
}

pub open spec fn events_view(events: Seq<ActivityEvent>) -> Seq<ActivityEventView> {
    events.map_values(|e: ActivityEvent| e@)
}

/// The newest `limit` events.
pub open spec fn newest(events: Seq<ActivityEvent>, limit: nat) -> Seq<ActivityEvent> {
    if events.len() > limit {
        events.skip(events.len() - limit)
    } else {
        events
    }
}

/// The events with a sequence number above `after_seq`, in order.
pub open spec fn events_after_seq(events: Seq<ActivityEventView>, after_seq: u64) -> Seq<ActivityEventView>
    decreases events.len(),
{
    if events.len() == 0 {
        events
    } else {
        let rest = events_after_seq(events.drop_last(), after_seq);
        if events.last().seq > after_seq {
            rest.push(events.last())
        } else {
            rest
        }
    }
}

/// An activity's record and the events kept for replay.
#[derive(Debug)]
pub struct ActivityEntry {
    pub record: ActivityRecord,
    pub events: Vec<ActivityEvent>,
}

impl ActivityEntry {
    pub fn new(record: ActivityRecord) -> (e: ActivityEntry)
        ensures
            e.record == record,
            e.events@ == Seq::<ActivityEvent>::empty(),
    {
        ActivityEntry { record, events: Vec::new() }
    }

    /// Appends an event: the record moves to the event's sequence number
    /// and time, and only the newest `max_events` events (at least one)
    /// are kept.
    pub fn push(&mut self, event: ActivityEvent, max_events: usize)
        ensures
            final(self).record == (ActivityRecord {
                last_event_seq: event.seq,
                updated_at_ms: event.timestamp_ms,
                ..old(self).record
            }),
            final(self).events@ == newest(
                old(self).events@.push(event),
                if max_events > 1 {
                    max_events as nat
                } else {
                    1
                },
            ),
    {
        self.record.last_event_seq = event.seq;
        self.record.updated_at_ms = event.timestamp_ms;
        let ghost all = self.events@.push(event);
        self.events.push(event);
        let limit: usize = if max_events > 1 {
            max_events
        } else {
            1
        };
        let ghost start: int = 0;
        let ghost record = self.record;
        assert(all.skip(0) =~= all);
        while self.events.len() > limit
            invariant
                limit >= 1,
                0 <= start <= all.len(),
                self.events@ == all.skip(start),
                start <= (if all.len() > limit {
                    all.len() - limit
                } else {
                    0
                }),
                self.record == record,
            decreases self.events.len(),
        {
            self.events.remove(0);
            proof {
                assert(self.events@ =~= all.skip(start + 1));
                start = start + 1;
            }
        }
        proof {
            if all.len() > limit {
                assert(start == all.len() - limit);
            }
        }
    }

    /// Copies of the kept events after a sequence number.
    pub fn events_after(&self, after_seq: u64) -> (r: Vec<ActivityEvent>)
        ensures
            events_view(r@) == events_after_seq(events_view(self.events@), after_seq),
    {
        let ghost all = events_view(self.events@);
        let mut r: Vec<ActivityEvent> = Vec::new();
        let mut i: usize = 0;
        while i < self.events.len()
            invariant
                i <= self.events.len(),
                all == events_view(self.events@),
                events_view(r@) == events_after_seq(all.take(i as int), after_seq),
            decreases self.events.len() - i,
        {
            proof {
                assert(all.take(i + 1).drop_last() =~= all.take(i as int));
                assert(all.take(i + 1).last() == self.events@[i as int]@);
            }
            if self.events[i].seq > after_seq {
                let ghost before = events_view(r@);
                r.push(self.events[i].duplicate());
                assert(events_view(r@) =~= before.push(self.events@[i as int]@));
            }
            i = i + 1;
        }
        assert(all.take(i as int) =~= all);
        r
    }
}

/// The events with a sequence number up to `last_event_seq`, in order.
pub open spec fn events_up_to(events: Seq<ActivityEvent>, last_event_seq: u64) -> Seq<ActivityEvent>
    decreases events.len(),
{
    if events.len() == 0 {
        events
    } else {
        let rest = events_up_to(events.drop_last(), last_event_seq);
        if events.last().seq <= last_event_seq {
            rest.push(events.last())
        } else {
            rest
        }
    }
}

/// The events to replay for an activity after a restart: those up to the
/// record's last sequence number, the newest `DEFAULT_MAX_EVENTS_PER_ACTIVITY`
/// of them, in order.
pub open spec fn recovered_events(events: Seq<ActivityEvent>, last_event_seq: u64) -> Seq<ActivityEvent> {
    newest(events_up_to(events, last_event_seq), DEFAULT_MAX_EVENTS_PER_ACTIVITY as nat)
}

/// The events an activity keeps when it is loaded again, from its stored
/// events in sequence order.
pub fn recover_events(events: Vec<ActivityEvent>, last_event_seq: u64) -> (r: Vec<ActivityEvent>)
    ensures
        r@ == recovered_events(events@, last_event_seq),
{
    let ghost all = events@;
    let mut source = events;
    let mut kept: Vec<ActivityEvent> = Vec::new();
    let mut done: usize = 0;
    let total = source.len();
    assert(all.skip(0) =~= all);
    while source.len() > 0
        invariant
            done + source@.len() == total,
            total == all.len(),
            source@ == all.skip(done as int),
            kept@ == events_up_to(all.take(done as int), last_event_seq),
        decreases source.len(),
    {
        let event = source.remove(0);
        proof {
            assert(source@ =~= all.skip(done + 1));
            assert(all.take(done + 1).drop_last() =~= all.take(done as int));
            assert(all.take(done + 1).last() == event);
        }
        if event.seq <= last_event_seq {
            kept.push(event);
        }
        done = done + 1;
    }
    assert(all.take(done as int) =~= all);
    let ghost up_to = kept@;
    let mut r: Vec<ActivityEvent> = Vec::new();
    let start: usize = if kept.len() > DEFAULT_MAX_EVENTS_PER_ACTIVITY {
        kept.len() - DEFAULT_MAX_EVENTS_PER_ACTIVITY
    } else {
        0
    };
    let mut i: usize = 0;
    let count = kept.len();
    while kept.len() > 0
        invariant
            i + kept@.len() == up_to.len(),
            count == up_to.len(),
            kept@ == up_to.skip(i as int),
            start <= up_to.len(),
            r@ == (if i <= start {
                Seq::<ActivityEvent>::empty()
            } else {
                up_to.subrange(start as int, i as int)
            }),
        decreases kept.len(),
    {
        let event = kept.remove(0);
        proof {
            assert(kept@ =~= up_to.skip(i + 1));
        }
        if i >= start {
            let ghost before = r@;
            r.push(event);
            proof {
                if i == start {
                    assert(r@ =~= up_to.subrange(start as int, i + 1));
                } else {
                    assert(r@ =~= up_to.subrange(start as int, i + 1));
                }
            }
        }
        i = i + 1;
    }
    proof {
        if up_to.len() > DEFAULT_MAX_EVENTS_PER_ACTIVITY {
            assert(r@ =~= up_to.skip(up_to.len() - DEFAULT_MAX_EVENTS_PER_ACTIVITY));
        } else if up_to.len() == 0 {
            assert(r@ =~= up_to);
        } else {
            assert(r@ =~= up_to);
        }
    }
    r
}

/// Replaying after a sequence number gives exactly the kept events whose
/// sequence number is above it, in the order they were kept.
pub proof fn law_events_after_are_those_above_the_cursor(events: Seq<ActivityEventView>, after_seq: u64)
    ensures
        events_after_seq(events, after_seq) == events.filter(
            |e: ActivityEventView| e.seq > after_seq,
        ),
    decreases events.len(),
{
    reveal(Seq::filter);
    if events.len() > 0 {
        law_events_after_are_those_above_the_cursor(events.drop_last(), after_seq);
    }
}

/// Recovery keeps exactly the stored events up to the record's last sequence
/// number, in order, and of those the newest 2048 at most.
pub proof fn law_recovery_keeps_the_newest_recorded_events(events: Seq<ActivityEvent>, last_event_seq: u64)
    ensures
        ({
            let up_to = events.filter(|e: ActivityEvent| e.seq <= last_event_seq);
            let r = recovered_events(events, last_event_seq);
            &&& r.len() == (if up_to.len() > 2048 {
                2048
            } else {
                up_to.len()
            })
            &&& forall|i: int| 0 <= i < r.len() ==> #[trigger] r[i] == up_to[up_to.len() - r.len() + i]
        }),
{
    lemma_events_up_to_filter(events, last_event_seq);
}

proof fn lemma_events_up_to_filter(events: Seq<ActivityEvent>, last_event_seq: u64)
    ensures
        events_up_to(events, last_event_seq) == events.filter(
            |e: ActivityEvent| e.seq <= last_event_seq,
        ),
    decreases events.len(),
{
    reveal(Seq::filter);
    if events.len() > 0 {
        lemma_events_up_to_filter(events.drop_last(), last_event_seq);
    }
}

/// Pushing an event keeps it as the newest, keeps at most `max_events`
/// events (at least one), and keeps the newest of the earlier ones in order.
pub proof fn law_push_keeps_the_newest_events(old_events: Seq<ActivityEvent>, event: ActivityEvent, limit: nat)
    requires
        limit >= 1,
    ensures
        ({
            let all = old_events.push(event);
            let r = newest(all, limit);
            &&& r.len() == (if all.len() > limit {
                limit
            } else {
                all.len()
            })
            &&& r.last() == event
            &&& forall|i: int| 0 <= i < r.len() ==> #[trigger] r[i] == all[all.len() - r.len() + i]
        }),
{
}

} // verus!
