//! Provider-neutral recovery policy for incomplete model output.
//!
//! Provider adapters normalize their terminal reasons into [`FinishReason`].
//! This module decides whether a model step completes the user turn,
//! continues an output-limited response, proceeds to tools, or represents a
//! non-recoverable provider outcome. A per-request output limit is never
//! confused with the lifetime of the user turn.

use vstd::prelude::*;

use crate::llm::FinishReason;
use crate::text::{
    chars_are_blank, chars_eq, chars_of, contains_chars, contains_seq, decimal, decimal_chars,
    extend_chars, is_blank, leading_ws_count, lemma_blank_iff_trim_empty,
    lemma_ws_prefix_len_bounds, matches_at, slice_chars, starts_with, string_of, trim_start,
};

verus! {

/// Output recovery stops only after this many consecutive samples make no
/// answer or tool progress.
pub const CONSECUTIVE_NO_PROGRESS_STALL_THRESHOLD: u8 = 3;

/// Why a model step is continued instead of completing the turn.
#[derive(Debug, Clone, Copy, PartialEq, Eq, Structural)]
pub enum OutputRecoveryCause {
    OutputLimit,
    EmptyTerminal,
    ProviderPause,
    ContextLimit,
}

/// Non-recoverable outcome of a model step.
#[derive(Debug, Clone, PartialEq, Eq)]
pub enum OutputRecoveryFailure {
    ContentFiltered,
    OutputLimit,
    EmptyTerminal,
    MalformedToolCall,
    ProtocolIncomplete,
    UnsupportedTerminal(String),
}

/// Why the tool calls of a sample are not executed.
#[derive(Debug, Clone, Copy, PartialEq, Eq, Structural)]
pub enum ToolRoundRejectionCause {
    OutputLimit,
    ProviderPause,
    ContextLimit,
    MalformedToolCall,
    ProtocolIncomplete,
    ToolsSuppressed,
}

/// What the agent loop does with one model sample.
#[derive(Debug, Clone, PartialEq, Eq)]
pub enum OutputRecoveryDecision {
    Continue { cause: OutputRecoveryCause, visible_delta: String },
    RejectToolRound { cause: ToolRoundRejectionCause, committed_progress: bool },
    ToolRound { visible_delta: String },
    Final { content: String, visible_delta: String },
    Reject(OutputRecoveryFailure),
}

/// Mathematical form of [`OutputRecoveryFailure`].
pub enum FailureSpec {
    ContentFiltered,
    OutputLimit,
    EmptyTerminal,
    MalformedToolCall,
    ProtocolIncomplete,
    UnsupportedTerminal(Seq<char>),
}

/// Mathematical form of [`OutputRecoveryDecision`].
pub enum DecisionSpec {
    Continue { cause: OutputRecoveryCause, visible_delta: Seq<char> },
    RejectToolRound { cause: ToolRoundRejectionCause, committed_progress: bool },
    ToolRound { visible_delta: Seq<char> },
    Final { content: Seq<char>, visible_delta: Seq<char> },
    Reject(FailureSpec),
}

impl View for OutputRecoveryFailure {
    type V = FailureSpec;

    open spec fn view(&self) -> FailureSpec {
        match self {
            OutputRecoveryFailure::ContentFiltered => FailureSpec::ContentFiltered,
            OutputRecoveryFailure::OutputLimit => FailureSpec::OutputLimit,
            OutputRecoveryFailure::EmptyTerminal => FailureSpec::EmptyTerminal,
            OutputRecoveryFailure::MalformedToolCall => FailureSpec::MalformedToolCall,
            OutputRecoveryFailure::ProtocolIncomplete => FailureSpec::ProtocolIncomplete,
            OutputRecoveryFailure::UnsupportedTerminal(r) => FailureSpec::UnsupportedTerminal(r@),
        }
    }
}

impl View for OutputRecoveryDecision {
    type V = DecisionSpec;

    open spec fn view(&self) -> DecisionSpec {
        match self {
            OutputRecoveryDecision::Continue { cause, visible_delta } => DecisionSpec::Continue {
                cause: *cause,
                visible_delta: visible_delta@,
            },
            OutputRecoveryDecision::RejectToolRound { cause, committed_progress } =>
                DecisionSpec::RejectToolRound { cause: *cause, committed_progress: *committed_progress },
            OutputRecoveryDecision::ToolRound { visible_delta } => DecisionSpec::ToolRound {
                visible_delta: visible_delta@,
            },
            OutputRecoveryDecision::Final { content, visible_delta } => DecisionSpec::Final {
                content: content@,
                visible_delta: visible_delta@,
            },
            OutputRecoveryDecision::Reject(f) => DecisionSpec::Reject(f@),
        }
    }
}

/// Abstract state of an [`OutputRecovery`] episode.
pub struct RecoveryState {
    pub active: bool,
    pub visible: Seq<char>,
    pub pending: Seq<Seq<char>>,
    pub expected_ack: Option<Seq<char>>,
    pub next_ack: u32,
    pub empty_retried: bool,
    pub stalled_output_limits: u8,
    pub stalled_resumable: u8,
    pub last_pause: Option<Seq<char>>,
}

/// Tracks one recovery episode across as many tool and model steps as it needs.
///
/// Output-limit continuations are progress-based and independent from the
/// surrounding tool-round budget. Empty successful terminals get one
/// corrective continuation before the anomaly is surfaced.
pub struct OutputRecovery {
    active: bool,
    visible_prefix: Vec<char>,
    pending_ambiguous_fragments: Vec<Vec<char>>,
    expected_continuation_ack: Option<Vec<char>>,
    next_continuation_ack: u32,
    empty_terminal_retried: bool,
    consecutive_no_progress_output_limits: u8,
    consecutive_no_progress_resumable_terminals: u8,
    last_provider_pause_state: Option<Vec<char>>,
}

pub open spec fn opt_chars(o: Option<Vec<char>>) -> Option<Seq<char>> {
    match o {
        Some(v) => Some(v@),
        None => None,
    }
}

impl View for OutputRecovery {
    type V = RecoveryState;

    closed spec fn view(&self) -> RecoveryState {
        RecoveryState {
            active: self.active,
            visible: self.visible_prefix@,
            pending: self.pending_ambiguous_fragments@.map_values(|f: Vec<char>| f@),
            expected_ack: opt_chars(self.expected_continuation_ack),
            next_ack: self.next_continuation_ack,
            empty_retried: self.empty_terminal_retried,
            stalled_output_limits: self.consecutive_no_progress_output_limits,
            stalled_resumable: self.consecutive_no_progress_resumable_terminals,
            last_pause: opt_chars(self.last_provider_pause_state),
        }
    }
}

/// The initial state of a recovery episode.
pub open spec fn initial_state() -> RecoveryState {
    RecoveryState {
        active: false,
        visible: Seq::empty(),
        pending: Seq::empty(),
        expected_ack: None,
        next_ack: 0,
        empty_retried: false,
        stalled_output_limits: 0,
        stalled_resumable: 0,
        last_pause: None,
    }
}

// ---------------------------------------------------------------------------
// Specification
// ---------------------------------------------------------------------------

/// The last `k` characters of `e` equal the first `k` characters of `f`.
pub open spec fn is_overlap(e: Seq<char>, f: Seq<char>, k: int) -> bool {
    0 <= k && k <= e.len() && k <= f.len() && e.subrange(e.len() - k, e.len() as int) == f.take(k)
}

/// The largest overlap of at most `k` characters.
pub open spec fn overlap_upto(e: Seq<char>, f: Seq<char>, k: int) -> int
    decreases k,
{
    if k <= 0 {
        0
    } else if is_overlap(e, f, k) {
        k
    } else {
        overlap_upto(e, f, k - 1)
    }
}

/// Length of the longest suffix of `existing` that is also a prefix of `fragment`.
pub open spec fn suffix_prefix_overlap(existing: Seq<char>, fragment: Seq<char>) -> int {
    overlap_upto(
        existing,
        fragment,
        if existing.len() < fragment.len() {
            existing.len() as int
        } else {
            fragment.len() as int
        },
    )
}

/// Concatenation of a sequence of fragments, in order.
pub open spec fn concat_all(parts: Seq<Seq<char>>) -> Seq<char>
    decreases parts.len(),
{
    if parts.len() == 0 {
        Seq::empty()
    } else {
        concat_all(parts.drop_last()) + parts.last()
    }
}

/// The control marker for acknowledgement number `n`.
pub open spec fn ack_marker(n: nat) -> Seq<char> {
    "<nexa-continuation-ack:"@ + decimal(n) + ">"@
}

/// Removes an expected acknowledgement marker (and one following line break)
/// from the start of `content`, ignoring leading whitespace.
pub open spec fn strip_ack(content: Seq<char>, ack: Option<Seq<char>>) -> (Seq<char>, bool) {
    match ack {
        None => (content, false),
        Some(a) => {
            let candidate = trim_start(content);
            if starts_with(candidate, a) {
                let rest = candidate.skip(a.len() as int);
                if starts_with(rest, seq!['\r', '\n']) {
                    (rest.skip(2), true)
                } else if starts_with(rest, seq!['\n']) {
                    (rest.skip(1), true)
                } else {
                    (rest, true)
                }
            } else {
                (content, false)
            }
        },
    }
}

/// Outcome of committing a fragment: `Some(delta)` is the text newly made
/// visible (possibly empty); `None` means the fragment is held as an
/// ambiguous possible replay.
pub open spec fn committed(s: RecoveryState, delta: Seq<char>) -> RecoveryState {
    RecoveryState { visible: s.visible + delta, pending: Seq::empty(), ..s }
}

pub open spec fn held(s: RecoveryState, fragment: Seq<char>) -> RecoveryState {
    RecoveryState { pending: s.pending.push(fragment), ..s }
}

/// Commits a continuation fragment to the visible answer, holding exact
/// repetitions until an acknowledgement or later novel text disambiguates them.
#[verifier::opaque]
pub open spec fn commit_spec(s: RecoveryState, fragment: Seq<char>, acked: bool) -> (
    RecoveryState,
    Option<Seq<char>>,
) {
    if fragment.len() == 0 {
        (s, Some(Seq::empty()))
    } else if is_blank(fragment) {
        if s.pending.len() > 0 {
            if !acked {
                (held(s, fragment), None)
            } else {
                let delta = concat_all(s.pending) + fragment;
                (committed(s, delta), Some(delta))
            }
        } else {
            (committed(s, fragment), Some(fragment))
        }
    } else if acked {
        let confirms = s.pending.len() > 0 && s.pending.last() == fragment;
        let delta = if confirms {
            concat_all(s.pending)
        } else {
            concat_all(s.pending) + fragment
        };
        (committed(s, delta), Some(delta))
    } else {
        let overlap = suffix_prefix_overlap(s.visible, fragment);
        let occurs = s.visible.len() > 0 && contains_seq(s.visible, fragment);
        if overlap == fragment.len() || occurs {
            (held(s, fragment), None)
        } else {
            let flushed = s.visible + concat_all(s.pending);
            let novel = fragment.skip(suffix_prefix_overlap(flushed, fragment));
            let delta = concat_all(s.pending) + novel;
            (committed(s, delta), Some(delta))
        }
    }
}

/// Visible text produced by a commit outcome.
pub open spec fn outcome_delta(o: Option<Seq<char>>) -> Seq<char> {
    match o {
        Some(d) => d,
        None => Seq::empty(),
    }
}

pub open spec fn sat_inc(n: u8) -> u8 {
    if n == 255 {
        255
    } else {
        (n + 1) as u8
    }
}

/// A `Length` terminal: the per-request output limit was reached.
pub open spec fn output_limit_step(
    s: RecoveryState,
    content: Seq<char>,
    acked: bool,
    has_tool_calls: bool,
) -> (RecoveryState, DecisionSpec) {
    let s1 = RecoveryState { last_pause: None, ..s };
    if has_tool_calls {
        (
            s1,
            DecisionSpec::RejectToolRound {
                cause: ToolRoundRejectionCause::OutputLimit,
                committed_progress: false,
            },
        )
    } else {
        let s2 = RecoveryState { active: true, stalled_resumable: 0, ..s1 };
        let (s3, out) = commit_spec(s2, content, acked);
        let d = outcome_delta(out);
        if !is_blank(d) {
            (
                RecoveryState { stalled_output_limits: 0, ..s3 },
                DecisionSpec::Continue { cause: OutputRecoveryCause::OutputLimit, visible_delta: d },
            )
        } else {
            let stalled_before = d.len() > 0 && s3.stalled_output_limits
                >= CONSECUTIVE_NO_PROGRESS_STALL_THRESHOLD;
            let n = sat_inc(s3.stalled_output_limits);
            let s4 = RecoveryState { stalled_output_limits: n, ..s3 };
            if (d.len() == 0 || stalled_before) && n >= CONSECUTIVE_NO_PROGRESS_STALL_THRESHOLD {
                (s4, DecisionSpec::Reject(FailureSpec::OutputLimit))
            } else {
                (
                    s4,
                    DecisionSpec::Continue {
                        cause: OutputRecoveryCause::OutputLimit,
                        visible_delta: d,
                    },
                )
            }
        }
    }
}

/// A resumable provider terminal (a provider pause or the context limit).
pub open spec fn resumable_step(
    s: RecoveryState,
    pause: bool,
    content: Seq<char>,
    acked: bool,
    has_tool_calls: bool,
    fingerprint: Option<Seq<char>>,
) -> (RecoveryState, DecisionSpec) {
    let cause = if pause {
        OutputRecoveryCause::ProviderPause
    } else {
        OutputRecoveryCause::ContextLimit
    };
    let progress = pause && fingerprint is Some && s.last_pause != fingerprint;
    let s1 = if pause {
        if fingerprint is Some {
            RecoveryState { last_pause: fingerprint, ..s }
        } else {
            s
        }
    } else {
        RecoveryState { last_pause: None, ..s }
    };
    let s2 = RecoveryState { active: true, ..s1 };
    if has_tool_calls {
        (
            s2,
            DecisionSpec::RejectToolRound {
                cause: if pause {
                    ToolRoundRejectionCause::ProviderPause
                } else {
                    ToolRoundRejectionCause::ContextLimit
                },
                committed_progress: progress,
            },
        )
    } else {
        let s3 = RecoveryState { stalled_output_limits: 0, ..s2 };
        let (s4, out) = commit_spec(s3, content, acked);
        let d = outcome_delta(out);
        if !is_blank(d) || progress {
            (
                RecoveryState { stalled_resumable: 0, ..s4 },
                DecisionSpec::Continue { cause, visible_delta: d },
            )
        } else {
            let stalled_before = d.len() > 0 && s4.stalled_resumable
                >= CONSECUTIVE_NO_PROGRESS_STALL_THRESHOLD;
            let n = sat_inc(s4.stalled_resumable);
            let s5 = RecoveryState { stalled_resumable: n, ..s4 };
            if (d.len() == 0 || stalled_before) && n >= CONSECUTIVE_NO_PROGRESS_STALL_THRESHOLD {
                (s5, DecisionSpec::Reject(FailureSpec::ProtocolIncomplete))
            } else {
                (s5, DecisionSpec::Continue { cause, visible_delta: d })
            }
        }
    }
}

/// Any other terminal (a stop, a tool-call finish, or none reported).
pub open spec fn completion_step(
    s: RecoveryState,
    content: Seq<char>,
    acked: bool,
    has_tool_calls: bool,
) -> (RecoveryState, DecisionSpec) {
    if has_tool_calls {
        let (s1, d) = if s.active {
            let (s1, out) = commit_spec(s, content, acked);
            (s1, outcome_delta(out))
        } else {
            (s, content)
        };
        (
            RecoveryState {
                stalled_output_limits: 0,
                stalled_resumable: 0,
                last_pause: None,
                ..s1
            },
            DecisionSpec::ToolRound { visible_delta: d },
        )
    } else if !is_blank(content) {
        let (s1, out) = commit_spec(s, content, acked);
        if out is Some && outcome_delta(out).len() > 0 {
            (
                RecoveryState {
                    active: false,
                    visible: Seq::empty(),
                    pending: Seq::empty(),
                    expected_ack: None,
                    empty_retried: false,
                    stalled_output_limits: 0,
                    stalled_resumable: 0,
                    last_pause: None,
                    ..s1
                },
                DecisionSpec::Final { content: s1.visible, visible_delta: outcome_delta(out) },
            )
        } else {
            let n = sat_inc(s1.stalled_output_limits);
            let s2 = RecoveryState { active: true, stalled_output_limits: n, ..s1 };
            if n >= CONSECUTIVE_NO_PROGRESS_STALL_THRESHOLD {
                (s2, DecisionSpec::Reject(FailureSpec::OutputLimit))
            } else {
                (
                    s2,
                    DecisionSpec::Continue {
                        cause: OutputRecoveryCause::OutputLimit,
                        visible_delta: Seq::empty(),
                    },
                )
            }
        }
    } else if !s.empty_retried {
        (
            RecoveryState { active: true, empty_retried: true, ..s },
            DecisionSpec::Continue {
                cause: OutputRecoveryCause::EmptyTerminal,
                visible_delta: Seq::empty(),
            },
        )
    } else {
        (s, DecisionSpec::Reject(FailureSpec::EmptyTerminal))
    }
}

/// The complete transition of one observed model sample.
pub open spec fn observe_spec(
    s: RecoveryState,
    finish: Option<FinishReason>,
    raw_content: Seq<char>,
    has_tool_calls: bool,
    fingerprint: Option<Seq<char>>,
) -> (RecoveryState, DecisionSpec) {
    let s0 = RecoveryState { expected_ack: None, ..s };
    let (content, acked) = strip_ack(raw_content, s.expected_ack);
    match finish {
        Some(FinishReason::ContentFilter) => (
            s0,
            DecisionSpec::Reject(FailureSpec::ContentFiltered),
        ),
        Some(FinishReason::Unknown(reason)) => (
            s0,
            DecisionSpec::Reject(FailureSpec::UnsupportedTerminal(reason@)),
        ),
        Some(FinishReason::MalformedToolCall) => (
            s0,
            if has_tool_calls {
                DecisionSpec::RejectToolRound {
                    cause: ToolRoundRejectionCause::MalformedToolCall,
                    committed_progress: false,
                }
            } else {
                DecisionSpec::Reject(FailureSpec::MalformedToolCall)
            },
        ),
        Some(FinishReason::ProtocolIncomplete) | Some(FinishReason::Other) => (
            s0,
            if has_tool_calls {
                DecisionSpec::RejectToolRound {
                    cause: ToolRoundRejectionCause::ProtocolIncomplete,
                    committed_progress: false,
                }
            } else {
                DecisionSpec::Reject(FailureSpec::ProtocolIncomplete)
            },
        ),
        Some(FinishReason::Length) => output_limit_step(s0, content, acked, has_tool_calls),
        Some(FinishReason::ProviderPause) => resumable_step(
            s0,
            true,
            content,
            acked,
            has_tool_calls,
            fingerprint,
        ),
        Some(FinishReason::ContextLimit) => resumable_step(
            s0,
            false,
            content,
            acked,
            has_tool_calls,
            fingerprint,
        ),
        _ => completion_step(s0, content, acked, has_tool_calls),
    }
}

/// Controller text for a continuation cause.
pub open spec fn cause_prompt(cause: OutputRecoveryCause, had_visible_content: bool) -> Seq<char> {
    match cause {
        OutputRecoveryCause::OutputLimit => if had_visible_content {
            "The provider reached its per-request output limit. Continue exactly where the visible answer stopped, without repeating prior text. Keep hidden reasoning out of the answer channel. You may use tools if the task still requires them."@
        } else {
            "The provider reached its per-request output limit before producing answer-channel text. Continue the unfinished task. Keep hidden reasoning separate, use tools if still needed, and finish with a concise visible answer."@
        },
        OutputRecoveryCause::EmptyTerminal => "The provider ended without answer-channel text. Continue the unfinished task once, keep hidden reasoning separate, and finish with a concise visible answer."@,
        OutputRecoveryCause::ProviderPause => "The provider paused its server-side tool turn. Resume from the committed provider state, do not repeat completed local tools, and continue the unfinished task."@,
        OutputRecoveryCause::ContextLimit => "The provider reached the model context limit. Continue after context rollover, preserve committed tool results, and finish the unfinished task without repeating side effects."@,
    }
}

/// Full controller prompt that arms acknowledgement `ack`.
pub open spec fn continuation_prompt(
    cause: OutputRecoveryCause,
    had_visible_content: bool,
    ack: Seq<char>,
) -> Seq<char> {
    cause_prompt(cause, had_visible_content)
        + " Begin the next answer-channel response with the exact control marker `"@ + ack
        + "` on its own line, then emit only the new continuation. Nexa removes the marker before display. The marker is required to confirm an intentional continuation whose text repeats an earlier fragment."@
}


// ---------------------------------------------------------------------------
// Implementation
// ---------------------------------------------------------------------------

fn is_overlap_at(existing: &[char], fragment: &[char], k: usize) -> (b: bool)
    requires
        k <= existing.len(),
        k <= fragment.len(),
    ensures
        b == is_overlap(existing@, fragment@, k as int),
{
    let start = existing.len() - k;
    let mut j: usize = 0;
    while j < k
        invariant
            j <= k,
            k <= existing.len(),
            k <= fragment.len(),
            start == existing.len() - k,
            forall|i: int| 0 <= i < j ==> existing@[start + i] == fragment@[i],
        decreases k - j,
    {
        if existing[start + j] != fragment[j] {
            assert(existing@.subrange(start as int, existing.len() as int)[j as int]
                != fragment@.take(k as int)[j as int]);
            return false;
        }
        j = j + 1;
    }
    assert(existing@.subrange(start as int, existing.len() as int) =~= fragment@.take(k as int));
    true
}

/// Length of the longest suffix of `existing` that is also a prefix of `fragment`.
pub fn longest_suffix_prefix_overlap(existing: &[char], fragment: &[char]) -> (k: usize)
    ensures
        k as int == suffix_prefix_overlap(existing@, fragment@),
{
    let bound = if existing.len() < fragment.len() {
        existing.len()
    } else {
        fragment.len()
    };
    let mut k = bound;
    while k > 0
        invariant
            k <= bound,
            bound <= existing.len(),
            bound <= fragment.len(),
            suffix_prefix_overlap(existing@, fragment@) == overlap_upto(
                existing@,
                fragment@,
                k as int,
            ),
        decreases k,
    {
        if is_overlap_at(existing, fragment, k) {
            return k;
        }
        k = k - 1;
    }
    0
}

fn strip_expected_continuation_ack(content: &[char], expected_ack: &Option<Vec<char>>) -> (r: (
    Vec<char>,
    bool,
))
    ensures
        (r.0@, r.1) == strip_ack(content@, opt_chars(*expected_ack)),
{
    match expected_ack {
        None => (slice_chars(content, 0, content.len()), false),
        Some(ack) => {
            let lead = leading_ws_count(content);
            proof {
                lemma_ws_prefix_len_bounds(content@);
            }
            let candidate = slice_chars(content, lead, content.len());
            assert(candidate@ =~= trim_start(content@));
            if matches_at(candidate.as_slice(), ack.as_slice(), 0) {
                let rest = slice_chars(candidate.as_slice(), ack.len(), candidate.len());
                assert(rest@ =~= candidate@.skip(ack@.len() as int));
                let crlf: [char; 2] = ['\r', '\n'];
                let lf: [char; 1] = ['\n'];
                assert(crlf@ =~= seq!['\r', '\n']);
                assert(lf@ =~= seq!['\n']);
                if matches_at(rest.as_slice(), crlf.as_slice(), 0) {
                    let t = slice_chars(rest.as_slice(), 2, rest.len());
                    assert(t@ =~= rest@.skip(2));
                    (t, true)
                } else if matches_at(rest.as_slice(), lf.as_slice(), 0) {
                    let t = slice_chars(rest.as_slice(), 1, rest.len());
                    assert(t@ =~= rest@.skip(1));
                    (t, true)
                } else {
                    (rest, true)
                }
            } else {
                (slice_chars(content, 0, content.len()), false)
            }
        },
    }
}

pub proof fn lemma_concat_all_push(parts: Seq<Seq<char>>, x: Seq<char>)
    ensures
        concat_all(parts.push(x)) == concat_all(parts) + x,
{
    assert(parts.push(x).drop_last() =~= parts);
}

impl OutputRecovery {
    /// A fresh recovery episode.
    pub fn new() -> (r: OutputRecovery)
        ensures
            r@ == initial_state(),
    {
        let r = OutputRecovery {
            active: false,
            visible_prefix: Vec::new(),
            pending_ambiguous_fragments: Vec::new(),
            expected_continuation_ack: None,
            next_continuation_ack: 0,
            empty_terminal_retried: false,
            consecutive_no_progress_output_limits: 0,
            consecutive_no_progress_resumable_terminals: 0,
            last_provider_pause_state: None,
        };
        assert(r@.pending =~= Seq::<Seq<char>>::empty());
        r
    }

    /// Whether an output-recovery episode currently owns the answer channel.
    pub fn reserves_answer_channel(&self) -> (b: bool)
        ensures
            b == self@.active,
    {
        self.active
    }

    /// Whether committed visible text contains anything but whitespace.
    pub fn has_visible_content(&self) -> (b: bool)
        ensures
            b == !is_blank(self@.visible),
    {
        !chars_are_blank(self.visible_prefix.as_slice())
    }

    /// The visible answer text committed so far in this episode.
    pub fn visible_prefix(&self) -> (s: String)
        ensures
            s@ == self@.visible,
    {
        string_of(self.visible_prefix.as_slice())
    }

    /// The acknowledgement marker armed for the next continuation, if any.
    pub fn expected_continuation_ack(&self) -> (r: Option<String>)
        ensures
            match r {
                Some(a) => self@.expected_ack == Some(a@),
                None => self@.expected_ack is None,
            },
    {
        match &self.expected_continuation_ack {
            Some(a) => Some(string_of(a.as_slice())),
            None => None,
        }
    }

    /// Flushes every held fragment into the visible answer, returning their text.
    fn flush_pending(&mut self) -> (delta: Vec<char>)
        ensures
            delta@ == concat_all(old(self)@.pending),
            final(self)@ == committed(old(self)@, delta@),
    {
        let mut delta: Vec<char> = Vec::new();
        let mut i: usize = 0;
        let ghost s0 = self@;
        let ghost pend = self@.pending;
        while i < self.pending_ambiguous_fragments.len()
            invariant
                i <= self.pending_ambiguous_fragments.len(),
                pend == self.pending_ambiguous_fragments@.map_values(|f: Vec<char>| f@),
                delta@ == concat_all(pend.take(i as int)),
                self@ == (RecoveryState { visible: s0.visible + delta@, ..s0 }),
            decreases self.pending_ambiguous_fragments.len() - i,
        {
            let frag = self.pending_ambiguous_fragments[i].clone();
            proof {
                assert(frag@ == pend[i as int]);
                assert(pend.take(i + 1) =~= pend.take(i as int).push(pend[i as int]));
                lemma_concat_all_push(pend.take(i as int), pend[i as int]);
            }
            extend_chars(&mut self.visible_prefix, frag.as_slice());
            extend_chars(&mut delta, frag.as_slice());
            assert(self.visible_prefix@ =~= s0.visible + delta@);
            i = i + 1;
        }
        assert(pend.take(pend.len() as int) =~= pend);
        self.pending_ambiguous_fragments.clear();
        assert(self@.pending =~= Seq::<Seq<char>>::empty());
        delta
    }

    fn hold(&mut self, fragment: &[char])
        ensures
            final(self)@ == held(old(self)@, fragment@),
    {
        let v = slice_chars(fragment, 0, fragment.len());
        assert(v@ =~= fragment@);
        self.pending_ambiguous_fragments.push(v);
        assert(self@.pending =~= old(self)@.pending.push(fragment@));
    }

    fn commit_continuation_fragment(&mut self, fragment: &[char], acknowledged: bool) -> (r: Option<
        Vec<char>,
    >)
        ensures
            (final(self)@, opt_chars(r)) == commit_spec(old(self)@, fragment@, acknowledged),
    {
        reveal(commit_spec);
        if fragment.len() == 0 {
            let e: Vec<char> = Vec::new();
            assert(e@ =~= Seq::<char>::empty());
            return Some(e);
        }
        if chars_are_blank(fragment) {
            if self.pending_ambiguous_fragments.len() > 0 {
                if !acknowledged {
                    self.hold(fragment);
                    return None;
                }
                let mut delta = self.flush_pending();
                extend_chars(&mut self.visible_prefix, fragment);
                extend_chars(&mut delta, fragment);
                assert(self.visible_prefix@ =~= old(self)@.visible + delta@);
                return Some(delta);
            }
            let mut delta = self.flush_pending();
            assert(delta@ =~= Seq::<char>::empty());
            extend_chars(&mut self.visible_prefix, fragment);
            extend_chars(&mut delta, fragment);
            assert(delta@ =~= fragment@);
            return Some(delta);
        }
        if acknowledged {
            let n = self.pending_ambiguous_fragments.len();
            let confirms = n > 0 && chars_eq(
                self.pending_ambiguous_fragments[n - 1].as_slice(),
                fragment,
            );
            proof {
                if n > 0 {
                    assert(self@.pending.last() == self.pending_ambiguous_fragments@[n - 1]@);
                }
            }
            let mut delta = self.flush_pending();
            if !confirms {
                extend_chars(&mut self.visible_prefix, fragment);
                extend_chars(&mut delta, fragment);
                assert(self.visible_prefix@ =~= old(self)@.visible + delta@);
            }
            return Some(delta);
        }
        let overlap = longest_suffix_prefix_overlap(self.visible_prefix.as_slice(), fragment);
        let occurs = self.visible_prefix.len() > 0 && contains_chars(
            self.visible_prefix.as_slice(),
            fragment,
        );
        if overlap == fragment.len() || occurs {
            self.hold(fragment);
            return None;
        }
        let mut delta = self.flush_pending();
        let second = longest_suffix_prefix_overlap(self.visible_prefix.as_slice(), fragment);
        proof {
            lemma_overlap_bounds(self.visible_prefix@, fragment@);
        }
        let novel = slice_chars(fragment, second, fragment.len());
        extend_chars(&mut self.visible_prefix, novel.as_slice());
        extend_chars(&mut delta, novel.as_slice());
        assert(self.visible_prefix@ =~= old(self)@.visible + delta@);
        Some(delta)
    }
}

pub proof fn lemma_overlap_upto_bounds(e: Seq<char>, f: Seq<char>, k: int)
    ensures
        0 <= overlap_upto(e, f, k),
        k >= 0 ==> overlap_upto(e, f, k) <= k,
    decreases k,
{
    if k > 0 && !is_overlap(e, f, k) {
        lemma_overlap_upto_bounds(e, f, k - 1);
    }
}

pub proof fn lemma_overlap_bounds(e: Seq<char>, f: Seq<char>)
    ensures
        0 <= suffix_prefix_overlap(e, f) <= f.len(),
        suffix_prefix_overlap(e, f) <= e.len(),
{
    let b = if e.len() < f.len() {
        e.len() as int
    } else {
        f.len() as int
    };
    lemma_overlap_upto_bounds(e, f, b);
}


pub open spec fn deref_finish(f: Option<&FinishReason>) -> Option<FinishReason> {
    match f {
        Some(r) => Some(*r),
        None => None,
    }
}

pub open spec fn opt_str(o: Option<&str>) -> Option<Seq<char>> {
    match o {
        Some(s) => Some(s@),
        None => None,
    }
}

fn saturating_inc(n: u8) -> (r: u8)
    ensures
        r == sat_inc(n),
{
    if n == 255 {
        255
    } else {
        n + 1
    }
}

fn delta_of(out: Option<Vec<char>>) -> (d: Vec<char>)
    ensures
        d@ == outcome_delta(opt_chars(out)),
{
    match out {
        Some(d) => d,
        None => {
            let e: Vec<char> = Vec::new();
            assert(e@ =~= Seq::<char>::empty());
            e
        },
    }
}

impl OutputRecovery {
    fn output_limit_step(&mut self, content: &[char], acked: bool, has_tool_calls: bool) -> (d:
        OutputRecoveryDecision)
        ensures
            (final(self)@, d@) == output_limit_step(old(self)@, content@, acked, has_tool_calls),
    {
        self.last_provider_pause_state = None;
        if has_tool_calls {
            // A length-terminated tool envelope is discarded in full, together
            // with any prose from the same rejected sample.
            return OutputRecoveryDecision::RejectToolRound {
                cause: ToolRoundRejectionCause::OutputLimit,
                committed_progress: false,
            };
        }
        self.active = true;
        self.consecutive_no_progress_resumable_terminals = 0;
        let out = self.commit_continuation_fragment(content, acked);
        let d = delta_of(out);
        if !chars_are_blank(d.as_slice()) {
            self.consecutive_no_progress_output_limits = 0;
        } else {
            let stalled_before = d.len() > 0 && self.consecutive_no_progress_output_limits
                >= CONSECUTIVE_NO_PROGRESS_STALL_THRESHOLD;
            self.consecutive_no_progress_output_limits = saturating_inc(
                self.consecutive_no_progress_output_limits,
            );
            if (d.len() == 0 || stalled_before) && self.consecutive_no_progress_output_limits
                >= CONSECUTIVE_NO_PROGRESS_STALL_THRESHOLD {
                return OutputRecoveryDecision::Reject(OutputRecoveryFailure::OutputLimit);
            }
        }
        OutputRecoveryDecision::Continue {
            cause: OutputRecoveryCause::OutputLimit,
            visible_delta: string_of(d.as_slice()),
        }
    }

    fn resumable_step(
        &mut self,
        pause: bool,
        content: &[char],
        acked: bool,
        has_tool_calls: bool,
        fingerprint: Option<&str>,
    ) -> (d: OutputRecoveryDecision)
        ensures
            (final(self)@, d@) == resumable_step(
                old(self)@,
                pause,
                content@,
                acked,
                has_tool_calls,
                opt_str(fingerprint),
            ),
    {
        let cause = if pause {
            OutputRecoveryCause::ProviderPause
        } else {
            OutputRecoveryCause::ContextLimit
        };
        let mut progress = false;
        if pause {
            if let Some(fp) = fingerprint {
                let fp_chars = chars_of(fp);
                let same = match &self.last_provider_pause_state {
                    Some(previous) => chars_eq(previous.as_slice(), fp_chars.as_slice()),
                    None => false,
                };
                progress = !same;
                self.last_provider_pause_state = Some(fp_chars);
            }
        } else {
            self.last_provider_pause_state = None;
        }
        // A resumable provider terminal starts a recovery episode even when
        // its concurrent client-tool envelope is rejected.
        self.active = true;
        if has_tool_calls {
            let rejection = if pause {
                ToolRoundRejectionCause::ProviderPause
            } else {
                ToolRoundRejectionCause::ContextLimit
            };
            return OutputRecoveryDecision::RejectToolRound {
                cause: rejection,
                committed_progress: progress,
            };
        }
        self.consecutive_no_progress_output_limits = 0;
        let out = self.commit_continuation_fragment(content, acked);
        let d = delta_of(out);
        if !chars_are_blank(d.as_slice()) || progress {
            self.consecutive_no_progress_resumable_terminals = 0;
        } else {
            let stalled_before = d.len() > 0 && self.consecutive_no_progress_resumable_terminals
                >= CONSECUTIVE_NO_PROGRESS_STALL_THRESHOLD;
            self.consecutive_no_progress_resumable_terminals = saturating_inc(
                self.consecutive_no_progress_resumable_terminals,
            );
            if (d.len() == 0 || stalled_before) && self.consecutive_no_progress_resumable_terminals
                >= CONSECUTIVE_NO_PROGRESS_STALL_THRESHOLD {
                return OutputRecoveryDecision::Reject(OutputRecoveryFailure::ProtocolIncomplete);
            }
        }
        OutputRecoveryDecision::Continue { cause, visible_delta: string_of(d.as_slice()) }
    }

    fn completion_step(&mut self, content: &[char], acked: bool, has_tool_calls: bool) -> (d:
        OutputRecoveryDecision)
        ensures
            (final(self)@, d@) == completion_step(old(self)@, content@, acked, has_tool_calls),
    {
        if has_tool_calls {
            let d = if self.active {
                let out = self.commit_continuation_fragment(content, acked);
                delta_of(out)
            } else {
                slice_chars(content, 0, content.len())
            };
            assert(!old(self)@.active ==> d@ =~= content@);
            self.consecutive_no_progress_output_limits = 0;
            self.consecutive_no_progress_resumable_terminals = 0;
            self.last_provider_pause_state = None;
            return OutputRecoveryDecision::ToolRound { visible_delta: string_of(d.as_slice()) };
        }
        if !chars_are_blank(content) {
            let out = self.commit_continuation_fragment(content, acked);
            let is_delta = out.is_some();
            let d = delta_of(out);
            if is_delta && d.len() > 0 {
                let final_content = string_of(self.visible_prefix.as_slice());
                self.visible_prefix = Vec::new();
                self.active = false;
                self.pending_ambiguous_fragments = Vec::new();
                self.expected_continuation_ack = None;
                self.empty_terminal_retried = false;
                self.consecutive_no_progress_output_limits = 0;
                self.consecutive_no_progress_resumable_terminals = 0;
                self.last_provider_pause_state = None;
                assert(self@.pending =~= Seq::<Seq<char>>::empty());
                assert(self@.visible =~= Seq::<char>::empty());
                return OutputRecoveryDecision::Final {
                    content: final_content,
                    visible_delta: string_of(d.as_slice()),
                };
            }
            self.active = true;
            self.consecutive_no_progress_output_limits = saturating_inc(
                self.consecutive_no_progress_output_limits,
            );
            if self.consecutive_no_progress_output_limits
                >= CONSECUTIVE_NO_PROGRESS_STALL_THRESHOLD {
                return OutputRecoveryDecision::Reject(OutputRecoveryFailure::OutputLimit);
            }
            let e: Vec<char> = Vec::new();
            assert(e@ =~= Seq::<char>::empty());
            return OutputRecoveryDecision::Continue {
                cause: OutputRecoveryCause::OutputLimit,
                visible_delta: string_of(e.as_slice()),
            };
        }
        let e: Vec<char> = Vec::new();
        assert(e@ =~= Seq::<char>::empty());
        if !self.empty_terminal_retried {
            self.active = true;
            self.empty_terminal_retried = true;
            return OutputRecoveryDecision::Continue {
                cause: OutputRecoveryCause::EmptyTerminal,
                visible_delta: string_of(e.as_slice()),
            };
        }
        OutputRecoveryDecision::Reject(OutputRecoveryFailure::EmptyTerminal)
    }

    /// Classifies one model sample and advances the recovery episode.
    pub fn observe_with_provider_state(
        &mut self,
        finish_reason: Option<&FinishReason>,
        content: &str,
        has_tool_calls: bool,
        provider_state_fingerprint: Option<&str>,
    ) -> (d: OutputRecoveryDecision)
        ensures
            (final(self)@, d@) == observe_spec(
                old(self)@,
                deref_finish(finish_reason),
                content@,
                has_tool_calls,
                opt_str(provider_state_fingerprint),
            ),
    {
        let expected_ack = self.expected_continuation_ack.take();
        let raw = chars_of(content);
        let (stripped, acked) = strip_expected_continuation_ack(raw.as_slice(), &expected_ack);
        match finish_reason {
            Some(FinishReason::ContentFilter) => {
                OutputRecoveryDecision::Reject(OutputRecoveryFailure::ContentFiltered)
            },
            Some(FinishReason::Unknown(reason)) => {
                OutputRecoveryDecision::Reject(
                    OutputRecoveryFailure::UnsupportedTerminal(reason.clone()),
                )
            },
            Some(FinishReason::MalformedToolCall) => {
                if has_tool_calls {
                    OutputRecoveryDecision::RejectToolRound {
                        cause: ToolRoundRejectionCause::MalformedToolCall,
                        committed_progress: false,
                    }
                } else {
                    OutputRecoveryDecision::Reject(OutputRecoveryFailure::MalformedToolCall)
                }
            },
            Some(FinishReason::ProtocolIncomplete) | Some(FinishReason::Other) => {
                if has_tool_calls {
                    OutputRecoveryDecision::RejectToolRound {
                        cause: ToolRoundRejectionCause::ProtocolIncomplete,
                        committed_progress: false,
                    }
                } else {
                    OutputRecoveryDecision::Reject(OutputRecoveryFailure::ProtocolIncomplete)
                }
            },
            Some(FinishReason::Length) => {
                self.output_limit_step(stripped.as_slice(), acked, has_tool_calls)
            },
            Some(FinishReason::ProviderPause) => {
                self.resumable_step(
                    true,
                    stripped.as_slice(),
                    acked,
                    has_tool_calls,
                    provider_state_fingerprint,
                )
            },
            Some(FinishReason::ContextLimit) => {
                self.resumable_step(
                    false,
                    stripped.as_slice(),
                    acked,
                    has_tool_calls,
                    provider_state_fingerprint,
                )
            },
            _ => self.completion_step(stripped.as_slice(), acked, has_tool_calls),
        }
    }

    /// [`Self::observe_with_provider_state`] without a provider state fingerprint.
    pub fn observe(
        &mut self,
        finish_reason: Option<&FinishReason>,
        content: &str,
        has_tool_calls: bool,
    ) -> (d: OutputRecoveryDecision)
        ensures
            (final(self)@, d@) == observe_spec(
                old(self)@,
                deref_finish(finish_reason),
                content@,
                has_tool_calls,
                None,
            ),
    {
        self.observe_with_provider_state(finish_reason, content, has_tool_calls, None)
    }
}


impl OutputRecoveryCause {
    /// Controller text explaining why the model step is continued.
    pub fn controller_prompt(self, had_visible_content: bool) -> (p: &'static str)
        ensures
            p@ == cause_prompt(self, had_visible_content),
    {
        match self {
            OutputRecoveryCause::OutputLimit => if had_visible_content {
                "The provider reached its per-request output limit. Continue exactly where the visible answer stopped, without repeating prior text. Keep hidden reasoning out of the answer channel. You may use tools if the task still requires them."
            } else {
                "The provider reached its per-request output limit before producing answer-channel text. Continue the unfinished task. Keep hidden reasoning separate, use tools if still needed, and finish with a concise visible answer."
            },
            OutputRecoveryCause::EmptyTerminal => "The provider ended without answer-channel text. Continue the unfinished task once, keep hidden reasoning separate, and finish with a concise visible answer.",
            OutputRecoveryCause::ProviderPause => "The provider paused its server-side tool turn. Resume from the committed provider state, do not repeat completed local tools, and continue the unfinished task.",
            OutputRecoveryCause::ContextLimit => "The provider reached the model context limit. Continue after context rollover, preserve committed tool results, and finish the unfinished task without repeating side effects.",
        }
    }
}

impl OutputRecovery {
    /// Arms a request-specific acknowledgement for the next continuation and
    /// returns the controller prompt that asks for it.
    ///
    /// An exact repeated fragment is ambiguous: it may be a replay or
    /// legitimate new text. The acknowledgement gives cooperative providers an
    /// explicit exactly-once signal.
    pub fn controller_prompt(&mut self, cause: OutputRecoveryCause, had_visible_content: bool) -> (p:
        String)
        ensures
            final(self)@ == (RecoveryState {
                next_ack: if old(self)@.next_ack == u32::MAX {
                    u32::MAX
                } else {
                    (old(self)@.next_ack + 1) as u32
                },
                expected_ack: Some(ack_marker(final(self)@.next_ack as nat)),
                ..old(self)@
            }),
            p@ == continuation_prompt(cause, had_visible_content, ack_marker(final(self)@.next_ack as nat)),
    {
        if self.next_continuation_ack < u32::MAX {
            self.next_continuation_ack = self.next_continuation_ack + 1;
        }
        let digits = decimal_chars(self.next_continuation_ack as u64);
        let mut marker = String::new();
        marker.append("<nexa-continuation-ack:");
        let digit_text = string_of(digits.as_slice());
        marker.append(digit_text.as_str());
        marker.append(">");
        let marker_chars = chars_of(marker.as_str());
        self.expected_continuation_ack = Some(marker_chars);
        let mut prompt = String::new();
        prompt.append(cause.controller_prompt(had_visible_content));
        prompt.append(" Begin the next answer-channel response with the exact control marker `");
        prompt.append(marker.as_str());
        prompt.append("` on its own line, then emit only the new continuation. Nexa removes the marker before display. The marker is required to confirm an intentional continuation whose text repeats an earlier fragment.");
        proof {
            assert(marker@ =~= ack_marker(self.next_continuation_ack as nat));
        }
        prompt
    }
}


impl Default for OutputRecovery {
    fn default() -> (r: OutputRecovery)
        ensures
            r@ == initial_state(),
    {
        OutputRecovery::new()
    }
}

// ---------------------------------------------------------------------------
// Laws
// ---------------------------------------------------------------------------

proof fn lemma_commit_appends(s: RecoveryState, fragment: Seq<char>, acked: bool)
    ensures
        ({
            let (t, out) = commit_spec(s, fragment, acked);
            &&& t.visible == s.visible + outcome_delta(out)
            &&& t.active == s.active
            &&& t.empty_retried == s.empty_retried
            &&& t.stalled_output_limits == s.stalled_output_limits
            &&& t.stalled_resumable == s.stalled_resumable
            &&& t.next_ack == s.next_ack
            &&& t.expected_ack == s.expected_ack
            &&& t.last_pause == s.last_pause
        }),
{
    reveal(commit_spec);
    let (t, out) = commit_spec(s, fragment, acked);
    if out is None {
        assert(s.visible + Seq::<char>::empty() =~= s.visible);
    }
}

proof fn lemma_strip_blank(content: Seq<char>, ack: Option<Seq<char>>)
    requires
        is_blank(content),
    ensures
        is_blank(strip_ack(content, ack).0),
{
    lemma_blank_iff_trim_empty(content);
    lemma_ws_prefix_len_bounds(content);
    let candidate = trim_start(content);
    assert(candidate.len() == 0);
}

/// Every continuation, tool round and final answer reports exactly the text it
/// appended to the committed answer: the answer is the concatenation of the
/// reported deltas, so nothing committed is ever duplicated or lost.
pub proof fn law_reported_deltas_are_appended_exactly(
    s: RecoveryState,
    finish: Option<FinishReason>,
    content: Seq<char>,
    has_tool_calls: bool,
    fingerprint: Option<Seq<char>>,
)
    ensures
        ({
            let (t, d) = observe_spec(s, finish, content, has_tool_calls, fingerprint);
            match d {
                DecisionSpec::Continue { visible_delta, .. } => t.visible == s.visible
                    + visible_delta,
                DecisionSpec::ToolRound { visible_delta } => if s.active {
                    t.visible == s.visible + visible_delta
                } else {
                    t.visible == s.visible
                },
                DecisionSpec::Final { content, visible_delta } => content == s.visible
                    + visible_delta && t.visible.len() == 0 && !t.active,
                _ => true,
            }
        }),
{
    let s0 = RecoveryState { expected_ack: None, ..s };
    let (c, acked) = strip_ack(content, s.expected_ack);
    let s1 = RecoveryState { last_pause: None, ..s0 };
    let s2 = RecoveryState { active: true, stalled_resumable: 0, ..s1 };
    lemma_commit_appends(s2, c, acked);
    lemma_commit_appends(s0, c, acked);
    let p1 = if fingerprint is Some {
        RecoveryState { last_pause: fingerprint, ..s0 }
    } else {
        s0
    };
    lemma_commit_appends(RecoveryState { active: true, stalled_output_limits: 0, ..p1 }, c, acked);
    lemma_commit_appends(
        RecoveryState { active: true, stalled_output_limits: 0, last_pause: None, ..s0 },
        c,
        acked,
    );
    assert(s.visible + Seq::<char>::empty() =~= s.visible);
}

/// Outside a final answer, the committed answer only ever grows at its end.
pub proof fn law_committed_answer_only_grows(
    s: RecoveryState,
    finish: Option<FinishReason>,
    content: Seq<char>,
    has_tool_calls: bool,
    fingerprint: Option<Seq<char>>,
)
    ensures
        ({
            let (t, d) = observe_spec(s, finish, content, has_tool_calls, fingerprint);
            !(d is Final) ==> s.visible.is_prefix_of(t.visible)
        }),
{
    let s0 = RecoveryState { expected_ack: None, ..s };
    let (c, acked) = strip_ack(content, s.expected_ack);
    let s1 = RecoveryState { last_pause: None, ..s0 };
    let s2 = RecoveryState { active: true, stalled_resumable: 0, ..s1 };
    lemma_commit_appends(s2, c, acked);
    lemma_commit_appends(s0, c, acked);
    let p1 = if fingerprint is Some {
        RecoveryState { last_pause: fingerprint, ..s0 }
    } else {
        s0
    };
    lemma_commit_appends(RecoveryState { active: true, stalled_output_limits: 0, ..p1 }, c, acked);
    lemma_commit_appends(
        RecoveryState { active: true, stalled_output_limits: 0, last_pause: None, ..s0 },
        c,
        acked,
    );
    let (t, d) = observe_spec(s, finish, content, has_tool_calls, fingerprint);
    if !(d is Final) {
        let extra = t.visible.subrange(s.visible.len() as int, t.visible.len() as int);
        assert(t.visible.len() >= s.visible.len());
        assert(t.visible.subrange(0, s.visible.len() as int) =~= s.visible);
    }
}

/// Content-filtered, malformed, incomplete and unknown terminals never become
/// a successful answer, and they leave the committed answer untouched.
pub proof fn law_failed_terminals_never_succeed(
    s: RecoveryState,
    finish: FinishReason,
    content: Seq<char>,
    has_tool_calls: bool,
    fingerprint: Option<Seq<char>>,
)
    requires
        finish is ContentFilter || finish is Unknown || finish is MalformedToolCall
            || finish is ProtocolIncomplete || finish is Other,
    ensures
        ({
            let (t, d) = observe_spec(s, Some(finish), content, has_tool_calls, fingerprint);
            &&& d is Reject || d is RejectToolRound
            &&& t.visible == s.visible
            &&& t.pending == s.pending
            &&& finish is ContentFilter ==> d == DecisionSpec::Reject(FailureSpec::ContentFiltered)
            &&& (finish matches FinishReason::Unknown(r) ==> d == DecisionSpec::Reject(
                FailureSpec::UnsupportedTerminal(r@),
            ))
        }),
{
}

/// A length-terminated tool envelope is discarded in full: no tool runs and
/// none of its draft text reaches the answer.
pub proof fn law_truncated_tool_round_is_discarded(
    s: RecoveryState,
    content: Seq<char>,
    fingerprint: Option<Seq<char>>,
)
    ensures
        ({
            let (t, d) = observe_spec(s, Some(FinishReason::Length), content, true, fingerprint);
            &&& d == DecisionSpec::RejectToolRound {
                cause: ToolRoundRejectionCause::OutputLimit,
                committed_progress: false,
            }
            &&& t.visible == s.visible
            &&& t.pending == s.pending
            &&& t.active == s.active
        }),
{
}

/// An empty successful terminal gets exactly one corrective continuation:
/// once it has been retried, the next empty terminal is rejected.
pub proof fn law_empty_terminal_retried_once(
    s: RecoveryState,
    finish: Option<FinishReason>,
    content: Seq<char>,
    fingerprint: Option<Seq<char>>,
)
    requires
        finish is None || finish == Some(FinishReason::Stop) || finish == Some(
            FinishReason::ToolCalls,
        ),
        is_blank(content),
    ensures
        ({
            let (t, d) = observe_spec(s, finish, content, false, fingerprint);
            &&& !s.empty_retried ==> d == DecisionSpec::Continue {
                cause: OutputRecoveryCause::EmptyTerminal,
                visible_delta: Seq::empty(),
            } && t.empty_retried
            &&& s.empty_retried ==> d == DecisionSpec::Reject(FailureSpec::EmptyTerminal)
        }),
{
    lemma_strip_blank(content, s.expected_ack);
}

/// A continuation episode is abandoned for lack of progress only after the
/// stall counter has reached the threshold.
pub proof fn law_stall_rejection_needs_threshold(
    s: RecoveryState,
    finish: Option<FinishReason>,
    content: Seq<char>,
    has_tool_calls: bool,
    fingerprint: Option<Seq<char>>,
)
    ensures
        ({
            let (t, d) = observe_spec(s, finish, content, has_tool_calls, fingerprint);
            &&& d == DecisionSpec::Reject(FailureSpec::OutputLimit)
                ==> t.stalled_output_limits >= CONSECUTIVE_NO_PROGRESS_STALL_THRESHOLD
            &&& (d == DecisionSpec::Reject(FailureSpec::ProtocolIncomplete) && (finish == Some(
                FinishReason::ProviderPause) || finish == Some(FinishReason::ContextLimit)))
                ==> t.stalled_resumable >= CONSECUTIVE_NO_PROGRESS_STALL_THRESHOLD
        }),
{
}

} // verus!
