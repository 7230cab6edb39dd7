//! Decisions of one model sampling step.

use vstd::prelude::*;

use crate::llm::{
    calls_view, CompletionResponse, FinishReason, ReasoningEffort, ReasoningReplayPolicy, StreamChunk,
    ToolCallRequest, Usage,
};
use crate::tool_calls::{accumulate_tool_call, accumulated};
use crate::error::{core_error_message, CoreError};
use crate::stream_recovery::{
    context_overflow_spec, ContextOverflowRecoveryDecision, ContextOverflowSpec, StreamRecoveryPolicy,
};
use crate::text::{chars_are_blank, chars_of, is_blank};

verus! {

/// A call carries a non-blank thought signature.
pub open spec fn is_signed(c: ToolCallRequest) -> bool {
    match c.thought_signature {
        Some(s) => !is_blank(s@),
        None => false,
    }
}

/// Some call of the sample carries a non-blank thought signature.
pub open spec fn has_signed_call(calls: Seq<ToolCallRequest>) -> bool {
    exists|i: int| 0 <= i < calls.len() && is_signed(#[trigger] calls[i])
}

/// The sample carries reasoning state: visible reasoning text, a provider
/// replay payload, or a signed tool call.
pub open spec fn sample_has_reasoning_state(
    iteration_thinking: Seq<char>,
    replay_payload_present: bool,
    calls: Seq<ToolCallRequest>,
) -> bool {
    !is_blank(iteration_thinking) || replay_payload_present || has_signed_call(calls)
}

/// A tool-calling sample with no reasoning state needs no replay when the
/// route's policy is unknown or forbids replay; otherwise the route's policy
/// stands.
pub open spec fn sample_replay_policy(
    route_policy: ReasoningReplayPolicy,
    iteration_thinking: Seq<char>,
    replay_payload_present: bool,
    calls: Seq<ToolCallRequest>,
) -> ReasoningReplayPolicy {
    if calls.len() > 0 && (route_policy == ReasoningReplayPolicy::Unknown || route_policy
        == ReasoningReplayPolicy::Forbidden) && !sample_has_reasoning_state(
        iteration_thinking,
        replay_payload_present,
        calls,
    ) {
        ReasoningReplayPolicy::NotRequired
    } else {
        route_policy
    }
}

fn any_signed_call(calls: &[ToolCallRequest]) -> (b: bool)
    ensures
        b == has_signed_call(calls@),
{
    let mut i: usize = 0;
    while i < calls.len()
        invariant
            i <= calls.len(),
            forall|k: int| 0 <= k < i ==> !is_signed(#[trigger] calls@[k]),
        decreases calls.len() - i,
    {
        match &calls[i].thought_signature {
            Some(s) => {
                let chars = chars_of(s.as_str());
                if !chars_are_blank(chars.as_slice()) {
                    return true;
                }
            },
            None => {},
        }
        i = i + 1;
    }
    false
}

/// The replay policy of one sample; `replay_payload_present` says whether the
/// provider returned a replay payload with it.
pub fn effective_sample_replay_policy(
    route_policy: ReasoningReplayPolicy,
    iteration_thinking: &str,
    replay_payload_present: bool,
    tool_calls: &[ToolCallRequest],
) -> (p: ReasoningReplayPolicy)
    ensures
        p == sample_replay_policy(route_policy, iteration_thinking@, replay_payload_present, tool_calls@),
{
    let thinking = chars_of(iteration_thinking);
    let has_state = !chars_are_blank(thinking.as_slice()) || replay_payload_present
        || any_signed_call(tool_calls);
    let weak = match route_policy {
        ReasoningReplayPolicy::Unknown | ReasoningReplayPolicy::Forbidden => true,
        _ => false,
    };
    if tool_calls.len() > 0 && weak && !has_state {
        ReasoningReplayPolicy::NotRequired
    } else {
        route_policy
    }
}

/// A chunk carries answer text, reasoning text, or a tool-call fragment.
pub fn stream_chunk_has_semantic_output(chunk: &StreamChunk) -> (b: bool)
    ensures
        b == (chunk.delta@.len() > 0 || (match chunk.thinking_delta {
            Some(t) => t@.len() > 0,
            None => false,
        }) || chunk.tool_call_delta is Some),
{
    !chunk.delta.as_str().is_empty() || (match &chunk.thinking_delta {
        Some(t) => !t.as_str().is_empty(),
        None => false,
    }) || chunk.tool_call_delta.is_some()
}

/// A response carries answer text, reasoning text, or tool calls.
pub fn completion_has_semantic_output(response: &CompletionResponse) -> (b: bool)
    ensures
        b == (response.content@.len() > 0 || (match response.thinking {
            Some(t) => t@.len() > 0,
            None => false,
        }) || (match response.tool_calls {
            Some(c) => c@.len() > 0,
            None => false,
        })),
{
    !response.content.as_str().is_empty() || (match &response.thinking {
        Some(t) => !t.as_str().is_empty(),
        None => false,
    }) || (match &response.tool_calls {
        Some(c) => c.len() > 0,
        None => false,
    })
}


/// The reasoning controls one model request carries.
#[derive(Debug, Clone, Copy, PartialEq, Eq, Structural)]
pub struct RequestReasoningControls {
    pub thinking_budget: Option<u32>,
    pub reasoning_enabled: Option<bool>,
    pub reasoning_effort: Option<ReasoningEffort>,
    /// The request leaves reasoning on and asks for some effort.
    pub reasoning_was_requested: bool,
}

/// Reasoning controls of a request: an answer-only step, or a tool loop in
/// which reasoning was switched off, sends reasoning disabled and no budget
/// or effort; otherwise the configured switch is sent, and the configured
/// budget and effort go with it only when reasoning is switched on.
pub fn request_reasoning_controls(
    force_answer_only: bool,
    reasoning_disabled_for_tool_loop: bool,
    reasoning_enabled: Option<bool>,
    thinking_budget: Option<u32>,
    reasoning_effort: Option<ReasoningEffort>,
) -> (c: RequestReasoningControls)
    ensures
        c.thinking_budget == (if !force_answer_only && !reasoning_disabled_for_tool_loop
            && reasoning_enabled == Some(true) {
            thinking_budget
        } else {
            None
        }),
        c.reasoning_enabled == (if force_answer_only || reasoning_disabled_for_tool_loop {
            Some(false)
        } else {
            reasoning_enabled
        }),
        c.reasoning_effort == (if !force_answer_only && !reasoning_disabled_for_tool_loop
            && reasoning_enabled == Some(true) {
            reasoning_effort
        } else {
            None
        }),
        c.reasoning_was_requested == (c.reasoning_enabled != Some(false) && c.reasoning_effort
            != Some(ReasoningEffort::Disabled)),
{
    let suppressed = force_answer_only || reasoning_disabled_for_tool_loop;
    let active = !suppressed && match reasoning_enabled {
        Some(b) => b,
        None => false,
    };
    let enabled = if suppressed {
        Some(false)
    } else {
        reasoning_enabled
    };
    let budget = if active {
        thinking_budget
    } else {
        None
    };
    let effort = if active {
        reasoning_effort
    } else {
        None
    };
    let requested = !matches!(enabled, Some(false)) && !matches!(effort, Some(ReasoningEffort::Disabled));
    RequestReasoningControls {
        thinking_budget: budget,
        reasoning_enabled: enabled,
        reasoning_effort: effort,
        reasoning_was_requested: requested,
    }
}

pub open spec fn ids_view(ids: Seq<String>) -> Seq<Seq<char>> {
    ids.map_values(|s: String| s@)
}

/// Adds `id` to `ids` unless it is there; says whether it was added.
fn insert_id(ids: &mut Vec<String>, id: &String) -> (inserted: bool)
    requires
        ids_view(old(ids)@).no_duplicates(),
    ensures
        ids_view(final(ids)@).no_duplicates(),
        inserted == !ids_view(old(ids)@).contains(id@),
        ids_view(final(ids)@) == (if inserted {
            ids_view(old(ids)@).push(id@)
        } else {
            ids_view(old(ids)@)
        }),
{
    let ghost v = ids_view(ids@);
    let mut i: usize = 0;
    while i < ids.len()
        invariant
            i <= ids@.len(),
            v == ids_view(ids@),
            v.no_duplicates(),
            forall|j: int| 0 <= j < i ==> v[j] != id@,
        decreases ids@.len() - i,
    {
        if ids[i] == *id {
            assert(v[i as int] == id@);
            return false;
        }
        i += 1;
    }
    assert(!v.contains(id@)) by {
        if v.contains(id@) {
            let j = choose|j: int| 0 <= j < v.len() && v[j] == id@;
            assert(v[j] != id@);
        }
    }
    ids.push(id.clone());
    assert(ids_view(ids@) =~= v.push(id@));
    true
}

/// What a tool-call fragment calls for in the agent's event stream.
#[derive(Debug, Clone, Copy, PartialEq, Eq, Structural)]
pub enum ToolPreparation {
    /// The call is seen with a name for the first time: announce that it is
    /// being prepared, and announce its run too when `run_started` holds.
    Announce { run_started: bool },
    /// The call's arguments grew and its tool shows them as they arrive.
    PreviewUpdated,
    /// Nothing to report.
    Quiet,
}

/// What a provider-hosted tool's progress calls for in the event stream.
#[derive(Debug, Clone, Copy, PartialEq, Eq, Structural)]
pub enum HostedToolReport {
    /// The run starts.
    Started,
    /// The run was already announced and goes on.
    Updated,
    /// The run finished before it was ever announced: announce it, then
    /// its completion.
    StartedThenCompleted,
    /// The run finished.
    Completed,
}

/// The progress a provider reports of a tool it runs itself.
#[derive(Debug, Clone, Copy, PartialEq, Eq, Structural)]
pub enum ProviderHostedToolStatus {
    Running,
    Completed,
    Failed,
}

/// What one model step has captured of the provider sample it is reading:
/// the sample's text, reasoning and tool calls, and which tool calls the
/// event stream has already announced.
#[derive(Debug)]
pub struct SampleCapture {
    /// The turn's accumulated answer text when the step began.
    pub accumulated_before: String,
    /// The turn's accumulated answer text, this sample's text included.
    pub accumulated_content: String,
    pub full_content: String,
    pub tool_calls: Vec<ToolCallRequest>,
    pub iteration_thinking: String,
    pub answer_delta_seen: bool,
    pub thinking_delta_seen: bool,
    pub finish_reason: Option<FinishReason>,
    pub chunk_usage: Option<Usage>,
    pub chunk_count: usize,
    pub preparing_call_ids: Vec<String>,
    pub started_call_ids: Vec<String>,
    pub tool_run_started_ids: Vec<String>,
}

impl SampleCapture {
    /// The accumulated text is the text from before the step followed by the
    /// current sample's text, and no call id is recorded twice in a set.
    pub open spec fn wf(&self) -> bool {
        &&& self.accumulated_content@ == self.accumulated_before@ + self.full_content@
        &&& ids_view(self.preparing_call_ids@).no_duplicates()
        &&& ids_view(self.started_call_ids@).no_duplicates()
        &&& ids_view(self.tool_run_started_ids@).no_duplicates()
    }

    /// Nothing of a sample is captured.
    pub open spec fn is_empty_sample(&self) -> bool {
        &&& self.accumulated_content@ == self.accumulated_before@
        &&& self.full_content@.len() == 0
        &&& self.tool_calls@.len() == 0
        &&& self.iteration_thinking@.len() == 0
        &&& !self.answer_delta_seen
        &&& !self.thinking_delta_seen
        &&& self.finish_reason is None
        &&& self.chunk_usage is None
        &&& self.chunk_count == 0
        &&& self.preparing_call_ids@.len() == 0
        &&& self.started_call_ids@.len() == 0
        &&& self.tool_run_started_ids@.len() == 0
    }

    /// A capture for a step that begins with `accumulated_content` already
    /// answered in the turn.
    pub fn new(accumulated_content: String) -> (c: SampleCapture)
        ensures
            c.wf(),
            c.is_empty_sample(),
            c.accumulated_before@ == accumulated_content@,
    {
        let before = accumulated_content.clone();
        let c = SampleCapture {
            accumulated_before: before,
            accumulated_content,
            full_content: String::new(),
            tool_calls: Vec::new(),
            iteration_thinking: String::new(),
            answer_delta_seen: false,
            thinking_delta_seen: false,
            finish_reason: None,
            chunk_usage: None,
            chunk_count: 0,
            preparing_call_ids: Vec::new(),
            started_call_ids: Vec::new(),
            tool_run_started_ids: Vec::new(),
        };
        assert(c.accumulated_content@ =~= c.accumulated_before@ + c.full_content@);
        c
    }

    /// Forgets the sample captured so far, when the provider moves to
    /// another sample: the turn's text goes back to what it was when the
    /// step began.
    pub fn reset_for_new_sample(&mut self)
        requires
            old(self).wf(),
        ensures
            final(self).wf(),
            final(self).is_empty_sample(),
            final(self).accumulated_before == old(self).accumulated_before,
    {
        self.accumulated_content = self.accumulated_before.clone();
        self.full_content = String::new();
        self.tool_calls.clear();
        self.iteration_thinking = String::new();
        self.answer_delta_seen = false;
        self.thinking_delta_seen = false;
        self.finish_reason = None;
        self.chunk_usage = None;
        self.preparing_call_ids.clear();
        self.started_call_ids.clear();
        self.tool_run_started_ids.clear();
        self.chunk_count = 0;
        assert(self.accumulated_content@ =~= self.accumulated_before@ + self.full_content@);
    }

    /// Takes in one streamed chunk: its reasoning and answer text are
    /// appended, its tool-call fragment is assembled, and its finish reason
    /// and usage replace earlier ones when present.
    pub fn apply_chunk(&mut self, chunk: StreamChunk)
        requires
            old(self).wf(),
            old(self).chunk_count < usize::MAX,
        ensures
            final(self).wf(),
            final(self).accumulated_before == old(self).accumulated_before,
            final(self).chunk_count == old(self).chunk_count + 1,
            match chunk.thinking_delta {
                Some(t) if t@.len() > 0 => {
                    &&& final(self).iteration_thinking@ == old(self).iteration_thinking@ + t@
                    &&& final(self).thinking_delta_seen
                },
                _ => {
                    &&& final(self).iteration_thinking@ == old(self).iteration_thinking@
                    &&& final(self).thinking_delta_seen == old(self).thinking_delta_seen
                },
            },
            chunk.delta@.len() > 0 ==> final(self).full_content@ == old(self).full_content@
                + chunk.delta@ && final(self).answer_delta_seen,
            chunk.delta@.len() == 0 ==> final(self).full_content@ == old(self).full_content@
                && final(self).answer_delta_seen == old(self).answer_delta_seen,
            calls_view(final(self).tool_calls@) == (match chunk.tool_call_delta {
                Some(d) => accumulated(calls_view(old(self).tool_calls@), d),
                None => calls_view(old(self).tool_calls@),
            }),
            final(self).finish_reason == (match chunk.finish_reason {
                Some(f) => Some(f),
                None => old(self).finish_reason,
            }),
            final(self).chunk_usage == (match chunk.usage {
                Some(u) => Some(u),
                None => old(self).chunk_usage,
            }),
            final(self).preparing_call_ids@ == old(self).preparing_call_ids@,
            final(self).started_call_ids@ == old(self).started_call_ids@,
            final(self).tool_run_started_ids@ == old(self).tool_run_started_ids@,
    {
        self.chunk_count = self.chunk_count + 1;
        match &chunk.thinking_delta {
            Some(t) => {
                if !t.as_str().is_empty() {
                    self.thinking_delta_seen = true;
                    self.iteration_thinking.append(t.as_str());
                }
            },
            None => {},
        }
        if !chunk.delta.as_str().is_empty() {
            self.answer_delta_seen = true;
            self.full_content.append(chunk.delta.as_str());
            self.accumulated_content.append(chunk.delta.as_str());
            assert(self.accumulated_content@ =~= self.accumulated_before@ + self.full_content@);
        }
        match &chunk.tool_call_delta {
            Some(d) => accumulate_tool_call(&mut self.tool_calls, d),
            None => {},
        }
        match chunk.finish_reason {
            Some(f) => {
                self.finish_reason = Some(f);
            },
            None => {},
        }
        match chunk.usage {
            Some(u) => {
                self.chunk_usage = Some(u);
            },
            None => {},
        }
    }

    /// Takes in a complete response in place of whatever the stream had
    /// delivered of the sample; which calls were announced is forgotten.
    pub fn apply_completion(&mut self, response: CompletionResponse)
        requires
            old(self).wf(),
        ensures
            final(self).wf(),
            final(self).accumulated_before == old(self).accumulated_before,
            final(self).full_content@ == response.content@,
            final(self).answer_delta_seen == (response.content@.len() > 0),
            final(self).iteration_thinking@ == (match response.thinking {
                Some(t) => t@,
                None => Seq::<char>::empty(),
            }),
            final(self).thinking_delta_seen == (final(self).iteration_thinking@.len() > 0),
            final(self).tool_calls@ == (match response.tool_calls {
                Some(c) => c@,
                None => Seq::<ToolCallRequest>::empty(),
            }),
            final(self).chunk_usage == Some(response.usage),
            final(self).finish_reason == Some(response.finish_reason),
            final(self).chunk_count == old(self).chunk_count,
            final(self).preparing_call_ids@.len() == 0,
            final(self).started_call_ids@.len() == 0,
            final(self).tool_run_started_ids@.len() == 0,
    {
        let mut accumulated = self.accumulated_before.clone();
        accumulated.append(response.content.as_str());
        self.accumulated_content = accumulated;
        self.answer_delta_seen = !response.content.as_str().is_empty();
        self.full_content = response.content;
        self.iteration_thinking = match response.thinking {
            Some(t) => t,
            None => String::new(),
        };
        self.thinking_delta_seen = !self.iteration_thinking.as_str().is_empty();
        self.tool_calls = match response.tool_calls {
            Some(c) => c,
            None => Vec::new(),
        };
        self.preparing_call_ids.clear();
        self.started_call_ids.clear();
        self.tool_run_started_ids.clear();
        self.chunk_usage = Some(response.usage);
        self.finish_reason = Some(response.finish_reason);
        assert(self.accumulated_content@ =~= self.accumulated_before@ + self.full_content@);
    }

    /// What the event stream should show for a tool call being assembled:
    /// a call with a name is announced once, its run along with it unless
    /// the run was already announced; later fragments that grow its
    /// arguments update the preview when its tool shows arguments as they
    /// arrive.
    pub fn observe_preparing_call(
        &mut self,
        call_id: &String,
        name_is_empty: bool,
        preview_enabled: bool,
        arguments_delta_is_empty: bool,
    ) -> (p: ToolPreparation)
        requires
            old(self).wf(),
        ensures
            final(self).wf(),
            final(self).accumulated_before == old(self).accumulated_before,
            final(self).accumulated_content == old(self).accumulated_content,
            final(self).full_content == old(self).full_content,
            final(self).tool_calls == old(self).tool_calls,
            final(self).started_call_ids == old(self).started_call_ids,
            !name_is_empty && !ids_view(old(self).preparing_call_ids@).contains(call_id@) ==> {
                &&& p == (ToolPreparation::Announce {
                    run_started: !ids_view(old(self).tool_run_started_ids@).contains(call_id@),
                })
                &&& ids_view(final(self).preparing_call_ids@) == ids_view(
                    old(self).preparing_call_ids@,
                ).push(call_id@)
                &&& ids_view(final(self).tool_run_started_ids@) == (if ids_view(
                    old(self).tool_run_started_ids@,
                ).contains(call_id@) {
                    ids_view(old(self).tool_run_started_ids@)
                } else {
                    ids_view(old(self).tool_run_started_ids@).push(call_id@)
                })
            },
            !(!name_is_empty && !ids_view(old(self).preparing_call_ids@).contains(call_id@)) ==> {
                &&& p == (if !name_is_empty && preview_enabled && !arguments_delta_is_empty {
                    ToolPreparation::PreviewUpdated
                } else {
                    ToolPreparation::Quiet
                })
                &&& ids_view(final(self).preparing_call_ids@) == ids_view(
                    old(self).preparing_call_ids@,
                )
                &&& ids_view(final(self).tool_run_started_ids@) == ids_view(
                    old(self).tool_run_started_ids@,
                )
            },
    {
        if !name_is_empty && insert_id(&mut self.preparing_call_ids, call_id) {
            let run_started = insert_id(&mut self.tool_run_started_ids, call_id);
            ToolPreparation::Announce { run_started }
        } else if !name_is_empty && preview_enabled && !arguments_delta_is_empty {
            ToolPreparation::PreviewUpdated
        } else {
            ToolPreparation::Quiet
        }
    }

    /// What the event stream should show for a provider-hosted tool's
    /// progress: a run is announced the first time it is seen, running or
    /// finished, and a finished run is reported as completed.
    pub fn observe_hosted_tool(&mut self, call_id: &String, status: ProviderHostedToolStatus) -> (r:
        HostedToolReport)
        requires
            old(self).wf(),
        ensures
            final(self).wf(),
            final(self).accumulated_before == old(self).accumulated_before,
            final(self).accumulated_content == old(self).accumulated_content,
            final(self).full_content == old(self).full_content,
            final(self).tool_calls == old(self).tool_calls,
            final(self).preparing_call_ids == old(self).preparing_call_ids,
            final(self).started_call_ids == old(self).started_call_ids,
            ids_view(final(self).tool_run_started_ids@) == (if ids_view(
                old(self).tool_run_started_ids@,
            ).contains(call_id@) {
                ids_view(old(self).tool_run_started_ids@)
            } else {
                ids_view(old(self).tool_run_started_ids@).push(call_id@)
            }),
            r == (match (status, ids_view(old(self).tool_run_started_ids@).contains(call_id@)) {
                (ProviderHostedToolStatus::Running, false) => HostedToolReport::Started,
                (ProviderHostedToolStatus::Running, true) => HostedToolReport::Updated,
                (_, false) => HostedToolReport::StartedThenCompleted,
                (_, true) => HostedToolReport::Completed,
            }),
    {
        let first = insert_id(&mut self.tool_run_started_ids, call_id);
        match status {
            ProviderHostedToolStatus::Running => if first {
                HostedToolReport::Started
            } else {
                HostedToolReport::Updated
            },
            _ => if first {
                HostedToolReport::StartedThenCompleted
            } else {
                HostedToolReport::Completed
            },
        }
    }
}


/// How a model step ends when its attempt fails: whether the interrupted
/// draft is kept first, what the user and the trace are told, and the error
/// the step returns.
#[derive(Debug)]
pub struct ModelStepFailure {
    pub persist_draft: bool,
    pub frontend_message: String,
    pub trace_message: String,
    pub error: CoreError,
}

/// What one event of a model attempt (other than the sample's own output,
/// which [`SampleCapture`] takes in) means for the step.
#[derive(Debug)]
pub enum ModelStepEvent {
    /// The provider reported output of the accepted sample; `semantic`
    /// says whether it carried text, reasoning, a tool call or a hosted tool.
    Output { semantic: bool },
    /// A complete response arrived; the attempt may have fallen back to a
    /// non-streaming request.
    Completion { semantic: bool, switched_to_non_streaming: bool },
    /// The stream or the response ended the sample.
    Complete,
    /// The provider says the prompt no longer fits.
    ContextOverflow { error: CoreError },
    /// The history was compacted after an overflow, or could not be.
    ContextRecovered { recovered: bool, error: CoreError },
    /// The stream broke after visible output.
    InterruptedAfterVisibleOutput { user_message: String, trace_message: String },
    /// The attempt failed.
    Failed { user_message: String, trace_message: String, error: CoreError },
    /// The attempt was cancelled; `accepted` says whether a sample had
    /// been accepted.
    Cancelled { message: String, accepted: bool },
}

/// What the step does next.
#[derive(Debug)]
pub enum ModelStepAction {
    /// Keep reading the attempt.
    Continue,
    /// The sample is complete: finish the step with what was captured.
    Completed,
    /// Report `status_message`, compact the history, and report back with
    /// [`ModelStepEvent::ContextRecovered`].
    Compact { attempt: u32, status_message: String },
    /// Start a new attempt on the compacted history, forgetting the sample
    /// captured so far when `reset_capture` holds.
    Restart { reset_capture: bool },
    /// End the turn with an error.
    Fail(ModelStepFailure),
}

/// The decisions of one model step around its attempt.
#[derive(Debug)]
pub struct ModelStep {
    pub policy: StreamRecoveryPolicy,
    pub context_recovery_attempts: u32,
    pub force_non_streaming: bool,
    /// A sample of the current attempt has been accepted.
    pub sample_accepted: bool,
}

pub open spec fn has_visible_draft(capture: SampleCapture) -> bool {
    !is_blank(capture.full_content@) || !is_blank(capture.iteration_thinking@)
}

pub open spec fn failure_is(
    a: ModelStepAction,
    persist_draft: bool,
    frontend: Seq<char>,
    trace: Seq<char>,
) -> bool {
    a matches ModelStepAction::Fail(f) && f.persist_draft == persist_draft && f.frontend_message@
        == frontend && f.trace_message@ == trace
}

impl ModelStep {
    /// A step whose previous context recoveries and transport mode carry over.
    pub fn new(policy: StreamRecoveryPolicy, context_recovery_attempts: u32, force_non_streaming: bool) -> (s: ModelStep)
        ensures
            s.policy == policy,
            s.context_recovery_attempts == context_recovery_attempts,
            s.force_non_streaming == force_non_streaming,
            !s.sample_accepted,
    {
        ModelStep { policy, context_recovery_attempts, force_non_streaming, sample_accepted: false }
    }

    /// Decides what an event of the attempt calls for. Semantic output
    /// resets the context-recovery count; an overflow compacts while the
    /// recovery budget lasts and gives up after; a recovered history
    /// restarts the attempt; a failure, interruption or cancellation ends
    /// the turn, keeping the interrupted draft when it has visible text.
    pub fn next(&mut self, capture: &SampleCapture, event: ModelStepEvent) -> (a: ModelStepAction)
        ensures
            final(self).policy == old(self).policy,
            match event {
                ModelStepEvent::Output { semantic } => {
                    &&& a is Continue
                    &&& final(self).sample_accepted
                    &&& final(self).context_recovery_attempts == (if semantic {
                        0
                    } else {
                        old(self).context_recovery_attempts
                    })
                    &&& final(self).force_non_streaming == old(self).force_non_streaming
                },
                ModelStepEvent::Completion { semantic, switched_to_non_streaming } => {
                    &&& a is Completed
                    &&& final(self).sample_accepted
                    &&& final(self).context_recovery_attempts == (if semantic {
                        0
                    } else {
                        old(self).context_recovery_attempts
                    })
                    &&& final(self).force_non_streaming == (old(self).force_non_streaming
                        || switched_to_non_streaming)
                },
                ModelStepEvent::Complete => {
                    &&& a is Completed
                    &&& final(self).sample_accepted
                    &&& final(self).context_recovery_attempts == old(self).context_recovery_attempts
                    &&& final(self).force_non_streaming == old(self).force_non_streaming
                },
                ModelStepEvent::ContextOverflow { error } => {
                    &&& final(self).sample_accepted == old(self).sample_accepted
                    &&& final(self).force_non_streaming == old(self).force_non_streaming
                    &&& match context_overflow_spec(
                        old(self).policy@.context_recovery,
                        old(self).context_recovery_attempts,
                        error,
                    ) {
                        ContextOverflowSpec::Compact { attempt, status_message } => {
                            &&& a matches ModelStepAction::Compact { attempt: at, status_message: m }
                                && at == attempt && m@ == status_message
                            &&& final(self).context_recovery_attempts == attempt
                        },
                        ContextOverflowSpec::GiveUp { user_message } => {
                            &&& failure_is(a, false, user_message, core_error_message(error))
                            &&& a matches ModelStepAction::Fail(f) && f.error == error
                            &&& final(self).context_recovery_attempts
                                == old(self).context_recovery_attempts
                        },
                    }
                },
                ModelStepEvent::ContextRecovered { recovered, error } => {
                    &&& final(self).context_recovery_attempts == old(self).context_recovery_attempts
                    &&& final(self).force_non_streaming == old(self).force_non_streaming
                    &&& if recovered {
                        &&& a == (ModelStepAction::Restart { reset_capture: old(self).sample_accepted })
                        &&& !final(self).sample_accepted
                    } else {
                        &&& failure_is(
                            a,
                            false,
                            "Context overflow could not be reduced further: "@ + core_error_message(error),
                            core_error_message(error),
                        )
                        &&& a matches ModelStepAction::Fail(f) && f.error == error
                        &&& final(self).sample_accepted == old(self).sample_accepted
                    }
                },
                ModelStepEvent::InterruptedAfterVisibleOutput { user_message, trace_message } => {
                    &&& failure_is(a, has_visible_draft(*capture), user_message@, trace_message@)
                    &&& a matches ModelStepAction::Fail(f) && f.error matches CoreError::StreamIncomplete(
                        m,
                    ) && m@ == trace_message@
                    &&& *final(self) == *old(self)
                },
                ModelStepEvent::Failed { user_message, trace_message, error } => {
                    &&& failure_is(a, false, user_message@, trace_message@)
                    &&& a matches ModelStepAction::Fail(f) && f.error == error
                    &&& *final(self) == *old(self)
                },
                ModelStepEvent::Cancelled { message, accepted } => {
                    &&& failure_is(a, accepted && has_visible_draft(*capture), message@, message@)
                    &&& a matches ModelStepAction::Fail(f) && f.error matches CoreError::Cancelled(m)
                        && m@ == message@
                    &&& *final(self) == *old(self)
                },
            },
    {
        match event {
            ModelStepEvent::Output { semantic } => {
                self.sample_accepted = true;
                if semantic {
                    self.context_recovery_attempts = 0;
                }
                ModelStepAction::Continue
            },
            ModelStepEvent::Completion { semantic, switched_to_non_streaming } => {
                self.sample_accepted = true;
                if semantic {
                    self.context_recovery_attempts = 0;
                }
                self.force_non_streaming = self.force_non_streaming || switched_to_non_streaming;
                ModelStepAction::Completed
            },
            ModelStepEvent::Complete => {
                self.sample_accepted = true;
                ModelStepAction::Completed
            },
            ModelStepEvent::ContextOverflow { error } => {
                match self.policy.decide_after_context_overflow(self.context_recovery_attempts, &error) {
                    ContextOverflowRecoveryDecision::Compact { attempt, status_message } => {
                        self.context_recovery_attempts = attempt;
                        ModelStepAction::Compact { attempt, status_message }
                    },
                    ContextOverflowRecoveryDecision::GiveUp { user_message } => {
                        let trace_message = error.message();
                        ModelStepAction::Fail(
                            ModelStepFailure {
                                persist_draft: false,
                                frontend_message: user_message,
                                trace_message,
                                error,
                            },
                        )
                    },
                }
            },
            ModelStepEvent::ContextRecovered { recovered, error } => {
                if recovered {
                    let reset_capture = self.sample_accepted;
                    self.sample_accepted = false;
                    ModelStepAction::Restart { reset_capture }
                } else {
                    let text = error.message();
                    let mut frontend = String::new();
                    frontend.append("Context overflow could not be reduced further: ");
                    frontend.append(text.as_str());
                    ModelStepAction::Fail(
                        ModelStepFailure {
                            persist_draft: false,
                            frontend_message: frontend,
                            trace_message: text,
                            error,
                        },
                    )
                }
            },
            ModelStepEvent::InterruptedAfterVisibleOutput { user_message, trace_message } => {
                let persist_draft = visible_draft(capture);
                let error = CoreError::StreamIncomplete(trace_message.clone());
                ModelStepAction::Fail(
                    ModelStepFailure { persist_draft, frontend_message: user_message, trace_message, error },
                )
            },
            ModelStepEvent::Failed { user_message, trace_message, error } => {
                ModelStepAction::Fail(
                    ModelStepFailure {
                        persist_draft: false,
                        frontend_message: user_message,
                        trace_message,
                        error,
                    },
                )
            },
            ModelStepEvent::Cancelled { message, accepted } => {
                let persist_draft = accepted && visible_draft(capture);
                let trace_message = message.clone();
                let error = CoreError::Cancelled(message.clone());
                ModelStepAction::Fail(
                    ModelStepFailure { persist_draft, frontend_message: message, trace_message, error },
                )
            },
        }
    }
}

fn visible_draft(capture: &SampleCapture) -> (b: bool)
    ensures
        b == has_visible_draft(*capture),
{
    let text = chars_of(capture.full_content.as_str());
    let thinking = chars_of(capture.iteration_thinking.as_str());
    !chars_are_blank(text.as_slice()) || !chars_are_blank(thinking.as_slice())
}

/// A step never compacts more often than the recovery budget allows: the
/// count of recoveries it reports never exceeds the policy's budget once it
/// starts within it, and past the budget an overflow ends the turn.
pub proof fn law_compaction_stays_within_budget(budget: u32, completed: u32, error: CoreError)
    ensures
        context_overflow_spec(budget, completed, error) matches ContextOverflowSpec::Compact { attempt, .. }
            ==> completed < budget && attempt == completed + 1 && attempt <= budget,
        completed >= budget ==> context_overflow_spec(budget, completed, error) is GiveUp,
{
}

} // verus!
