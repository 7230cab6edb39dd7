//! Runtime guardrails for unproductive agent loops.
//!
//! The guard watches model steps and tool results. Each kind of stall
//! (repeated tool batches, plan bookkeeping without action, repeated answer
//! shapes, consecutive tool errors) gets one bounded intervention; if the
//! stall continues after it, the guard stops the loop.

use vstd::prelude::*;

use crate::llm::{calls_view, ToolCallRequest, ToolCallView};
use crate::text::{chars_of, decimal, decimal_string, join_chars, join_with, string_of, vec_views};

verus! {

pub const REPEATED_TOOL_SIGNATURE_THRESHOLD: u32 = 3;

pub const REPEATED_TEXT_FINGERPRINT_THRESHOLD: u32 = 3;

pub const CONSECUTIVE_TOOL_ERROR_THRESHOLD: u32 = 4;

pub const NON_ACTION_TOOL_STEP_THRESHOLD: u32 = 2;

/// What the guard asks the agent loop to do.
#[derive(Debug, Clone, Copy, PartialEq, Eq, Structural)]
pub enum LoopGuardAction {
    BlockToolCalls,
    ChangeStrategy,
    StopLoop,
}

impl LoopGuardAction {
    pub fn as_str(self) -> (s: &'static str)
        ensures
            s@ == (match self {
                LoopGuardAction::BlockToolCalls => "blockToolCalls"@,
                LoopGuardAction::ChangeStrategy => "changeStrategy"@,
                LoopGuardAction::StopLoop => "stopLoop"@,
            }),
    {
        match self {
            LoopGuardAction::BlockToolCalls => "blockToolCalls",
            LoopGuardAction::ChangeStrategy => "changeStrategy",
            LoopGuardAction::StopLoop => "stopLoop",
        }
    }
}

/// An intervention: why, what to do, and the controller prompt to show.
#[derive(Debug, Clone, PartialEq, Eq)]
pub struct LoopGuardIntervention {
    pub reason: String,
    pub action: LoopGuardAction,
    pub prompt: String,
}

/// Mathematical form of an intervention.
pub struct InterventionView {
    pub reason: Seq<char>,
    pub action: LoopGuardAction,
    pub prompt: Seq<char>,
}

impl View for LoopGuardIntervention {
    type V = InterventionView;

    open spec fn view(&self) -> InterventionView {
        InterventionView { reason: self.reason@, action: self.action, prompt: self.prompt@ }
    }
}

pub open spec fn intervention_view(o: Option<LoopGuardIntervention>) -> Option<InterventionView> {
    match o {
        Some(i) => Some(i@),
        None => None,
    }
}

/// The guard's counters and one-shot flags.
pub struct GuardState {
    pub last_tool_signature: Option<Seq<char>>,
    pub repeated_tool_signature_count: u32,
    pub repeated_tool_intervention_used: bool,
    pub last_text_shape: Option<Seq<char>>,
    pub repeated_text_fingerprint_count: u32,
    pub repeated_text_intervention_used: bool,
    pub consecutive_tool_errors: u32,
    pub tool_error_intervention_used: bool,
    pub consecutive_non_action_tool_steps: u32,
    pub bookkeeping_intervention_used: bool,
}

/// Watches model steps and tool results for unproductive loops.
#[derive(Debug)]
pub struct AgentLoopGuard {
    last_tool_signature: Option<String>,
    repeated_tool_signature_count: u32,
    repeated_tool_intervention_used: bool,
    last_text_shape: Option<String>,
    repeated_text_fingerprint_count: u32,
    repeated_text_intervention_used: bool,
    consecutive_tool_errors: u32,
    tool_error_intervention_used: bool,
    consecutive_non_action_tool_steps: u32,
    bookkeeping_intervention_used: bool,
}

impl View for AgentLoopGuard {
    type V = GuardState;

    closed spec fn view(&self) -> GuardState {
        GuardState {
            last_tool_signature: crate::llm::opt_view(self.last_tool_signature),
            repeated_tool_signature_count: self.repeated_tool_signature_count,
            repeated_tool_intervention_used: self.repeated_tool_intervention_used,
            last_text_shape: crate::llm::opt_view(self.last_text_shape),
            repeated_text_fingerprint_count: self.repeated_text_fingerprint_count,
            repeated_text_intervention_used: self.repeated_text_intervention_used,
            consecutive_tool_errors: self.consecutive_tool_errors,
            tool_error_intervention_used: self.tool_error_intervention_used,
            consecutive_non_action_tool_steps: self.consecutive_non_action_tool_steps,
            bookkeeping_intervention_used: self.bookkeeping_intervention_used,
        }
    }
}

/// The state of a fresh guard.
pub open spec fn initial_guard_state() -> GuardState {
    GuardState {
        last_tool_signature: None,
        repeated_tool_signature_count: 0,
        repeated_tool_intervention_used: false,
        last_text_shape: None,
        repeated_text_fingerprint_count: 0,
        repeated_text_intervention_used: false,
        consecutive_tool_errors: 0,
        tool_error_intervention_used: false,
        consecutive_non_action_tool_steps: 0,
        bookkeeping_intervention_used: false,
    }
}

pub open spec fn sat_inc(x: u32) -> u32 {
    if x == u32::MAX {
        x
    } else {
        (x + 1) as u32
    }
}

pub open spec fn stop(reason: Seq<char>) -> Option<InterventionView> {
    Some(InterventionView { reason, action: LoopGuardAction::StopLoop, prompt: Seq::empty() })
}

pub open spec fn intervene(reason: Seq<char>, action: LoopGuardAction, prompt: Seq<char>) -> Option<InterventionView> {
    Some(InterventionView { reason, action, prompt })
}

pub open spec fn bookkeeping_stop_reason() -> Seq<char> {
    "The model continued emitting only plan or goal bookkeeping after the controller blocked that loop."@
}

pub open spec fn bookkeeping_reason() -> Seq<char> {
    "The model emitted consecutive plan or goal bookkeeping steps without a concrete task action."@
}

pub open spec fn bookkeeping_prompt() -> Seq<char> {
    "## Loop Guard\nPlan and goal tools are optional bookkeeping, not prerequisites for task execution. Stop updating them now. Either call the concrete evidence or action tool, provide a truthful final answer, or ask one focused question."@
}

pub open spec fn repeated_batch_stop_reason() -> Seq<char> {
    "The model repeated the same tool-call batch after the bounded loop-guard intervention."@
}

pub open spec fn repeated_batch_reason(count: u32) -> Seq<char> {
    "The model requested the same tool call batch "@ + decimal(count as nat)
        + " times without visible progress."@
}

pub open spec fn repeated_batch_prompt() -> Seq<char> {
    "## Loop Guard\nThe previous tool-call batch was blocked because it repeated the same tool names and arguments without progress. Do not retry the same calls. Summarize what is known, choose a different tool/argument strategy, or ask the user for the missing information."@
}

pub open spec fn repeated_text_stop_reason() -> Seq<char> {
    "The model repeated the same answer shape after the bounded loop-guard intervention."@
}

pub open spec fn repeated_text_reason() -> Seq<char> {
    "The model produced the same final-text shape repeatedly without taking a new action."@
}

pub open spec fn repeated_text_prompt() -> Seq<char> {
    "## Loop Guard\nThe last draft repeated an earlier answer shape without new progress. Make a concrete decision now: either provide the final answer with explicit uncertainty, use a different tool strategy, or ask one focused question."@
}

pub open spec fn tool_error_stop_reason(count: u32) -> Seq<char> {
    "Observed "@ + decimal(count as nat)
        + " consecutive tool errors after the bounded loop-guard intervention."@
}

pub open spec fn tool_error_reason(count: u32) -> Seq<char> {
    "Observed "@ + decimal(count as nat) + " consecutive tool errors."@
}

pub open spec fn tool_error_prompt() -> Seq<char> {
    "## Loop Guard\nSeveral tool calls failed in a row. Stop retrying the same approach. Inspect the latest error, reduce scope, change arguments, or answer with the recoverable limitation if the task cannot proceed."@
}

/// A model step that requested tools: `has_action_progress` says whether some
/// call is a concrete action (not plan bookkeeping), `signature` identifies
/// the batch.
pub open spec fn tool_batch_step(s: GuardState, has_action_progress: bool, signature: Seq<char>) -> (
    GuardState,
    Option<InterventionView>,
) {
    let s1 = if has_action_progress {
        s
    } else {
        GuardState {
            consecutive_non_action_tool_steps: sat_inc(s.consecutive_non_action_tool_steps),
            ..s
        }
    };
    if !has_action_progress && s1.consecutive_non_action_tool_steps
        >= NON_ACTION_TOOL_STEP_THRESHOLD {
        if s1.bookkeeping_intervention_used {
            (s1, stop(bookkeeping_stop_reason()))
        } else {
            (
                GuardState { bookkeeping_intervention_used: true, ..s1 },
                intervene(
                    bookkeeping_reason(),
                    LoopGuardAction::BlockToolCalls,
                    bookkeeping_prompt(),
                ),
            )
        }
    } else {
        let s2 = if s1.last_tool_signature == Some(signature) {
            GuardState {
                repeated_tool_signature_count: sat_inc(s1.repeated_tool_signature_count),
                ..s1
            }
        } else {
            GuardState {
                last_tool_signature: Some(signature),
                repeated_tool_signature_count: 1,
                repeated_tool_intervention_used: false,
                ..s1
            }
        };
        if s2.repeated_tool_signature_count >= REPEATED_TOOL_SIGNATURE_THRESHOLD {
            if s2.repeated_tool_intervention_used {
                (s2, stop(repeated_batch_stop_reason()))
            } else {
                (
                    GuardState { repeated_tool_intervention_used: true, ..s2 },
                    intervene(
                        repeated_batch_reason(s2.repeated_tool_signature_count),
                        LoopGuardAction::BlockToolCalls,
                        repeated_batch_prompt(),
                    ),
                )
            }
        } else {
            let s3 = if has_action_progress {
                GuardState {
                    consecutive_non_action_tool_steps: 0,
                    bookkeeping_intervention_used: false,
                    ..s2
                }
            } else {
                s2
            };
            (
                GuardState {
                    last_text_shape: None,
                    repeated_text_fingerprint_count: 0,
                    repeated_text_intervention_used: false,
                    ..s3
                },
                None,
            )
        }
    }
}

/// A model step without tool calls, given the shape of its text (`None` when
/// the text is too short to compare).
pub open spec fn text_step(s: GuardState, shape: Option<Seq<char>>) -> (GuardState, Option<InterventionView>) {
    match shape {
        None => (s, None),
        Some(sh) => {
            let s2 = if s.last_text_shape matches Some(prev) && shapes_match(prev, sh) {
                GuardState {
                    repeated_text_fingerprint_count: sat_inc(s.repeated_text_fingerprint_count),
                    ..s
                }
            } else {
                GuardState {
                    last_text_shape: Some(sh),
                    repeated_text_fingerprint_count: 1,
                    repeated_text_intervention_used: false,
                    ..s
                }
            };
            if s2.repeated_text_fingerprint_count >= REPEATED_TEXT_FINGERPRINT_THRESHOLD {
                if s2.repeated_text_intervention_used {
                    (s2, stop(repeated_text_stop_reason()))
                } else {
                    (
                        GuardState { repeated_text_intervention_used: true, ..s2 },
                        intervene(
                            repeated_text_reason(),
                            LoopGuardAction::ChangeStrategy,
                            repeated_text_prompt(),
                        ),
                    )
                }
            } else {
                (s2, None)
            }
        },
    }
}

/// A tool result, failed or not.
pub open spec fn tool_result_step(s: GuardState, is_error: bool) -> (GuardState, Option<InterventionView>) {
    let s1 = if is_error {
        GuardState { consecutive_tool_errors: sat_inc(s.consecutive_tool_errors), ..s }
    } else {
        GuardState { consecutive_tool_errors: 0, tool_error_intervention_used: false, ..s }
    };
    if s1.consecutive_tool_errors >= CONSECUTIVE_TOOL_ERROR_THRESHOLD {
        if s1.tool_error_intervention_used {
            (s1, stop(tool_error_stop_reason(s1.consecutive_tool_errors)))
        } else {
            (
                GuardState { tool_error_intervention_used: true, ..s1 },
                intervene(
                    tool_error_reason(s1.consecutive_tool_errors),
                    LoopGuardAction::ChangeStrategy,
                    tool_error_prompt(),
                ),
            )
        }
    } else {
        (s1, None)
    }
}

/// Plan bookkeeping is not a concrete action; every other tool is.
pub open spec fn is_action_progress(name: Seq<char>) -> bool {
    name != "update_plan"@
}

pub fn tool_call_is_action_progress(name: &str) -> (b: bool)
    ensures
        b == is_action_progress(name@),
{
    let chars = chars_of(name);
    let plan = chars_of("update_plan");
    !crate::text::chars_eq(chars.as_slice(), plan.as_slice())
}

pub open spec fn any_action_progress(calls: Seq<ToolCallView>) -> bool {
    exists|i: int| 0 <= i < calls.len() && is_action_progress(#[trigger] calls[i].name)
}

/// Text of a JSON document as serde_json writes it back after parsing it
/// (`None` when it does not parse).
pub uninterp spec fn json_round_trip(text: Seq<char>) -> Option<Seq<char>>;

/// Parses JSON text and writes it back compactly (`serde_json::from_str`
/// into a `Value`, then `serde_json::to_string`). Without the crate's
/// `preserve_order` feature its object maps are B-tree maps, so object keys
/// come out sorted at every depth: key order in the input does not matter.
/// Which text comes out is named, not stated.
#[verifier::external_body]
pub(crate) fn canonical_json_text(text: &str) -> (r: Option<String>)
    ensures
        crate::llm::opt_view(r) == json_round_trip(text@),
{
    let value: serde_json::Value = serde_json::from_str(text).ok()?;
    serde_json::to_string(&value).ok()
}

/// `name:arguments` of one call, with the arguments in canonical JSON form
/// when they parse.
pub open spec fn call_signature(c: ToolCallView) -> Seq<char> {
    c.name + ":"@ + match json_round_trip(c.arguments) {
        Some(t) => t,
        None => c.arguments,
    }
}

pub open spec fn batch_signature(calls: Seq<ToolCallView>) -> Seq<char> {
    join_with(calls.map_values(|c: ToolCallView| call_signature(c)), "|"@)
}

/// The signature of a tool-call batch.
pub fn tool_call_batch_signature(tool_calls: &[ToolCallRequest]) -> (s: String)
    ensures
        s@ == batch_signature(calls_view(tool_calls@)),
{
    let ghost views = calls_view(tool_calls@);
    let mut parts: Vec<Vec<char>> = Vec::new();
    let mut i: usize = 0;
    while i < tool_calls.len()
        invariant
            i <= tool_calls.len(),
            views == calls_view(tool_calls@),
            vec_views(parts@) == views.take(i as int).map_values(
                |c: ToolCallView| call_signature(c),
            ),
        decreases tool_calls.len() - i,
    {
        let call = &tool_calls[i];
        let mut part = String::new();
        part.append(call.name.as_str());
        part.append(":");
        match canonical_json_text(call.arguments.as_str()) {
            Some(t) => part.append(t.as_str()),
            None => part.append(call.arguments.as_str()),
        }
        let ghost before = vec_views(parts@);
        let chars = chars_of(part.as_str());
        parts.push(chars);
        proof {
            assert(views[i as int] == call@);
            assert(vec_views(parts@) =~= before.push(call_signature(views[i as int])));
            assert(views.take(i + 1).map_values(|c: ToolCallView| call_signature(c))
                =~= views.take(i as int).map_values(|c: ToolCallView| call_signature(c)).push(
                call_signature(views[i as int]),
            ));
        }
        i = i + 1;
    }
    assert(views.take(tool_calls.len() as int) =~= views);
    let sep = chars_of("|");
    let joined = join_chars(&parts, sep.as_slice());
    string_of(joined.as_slice())
}

/// `char::is_numeric`: the character's general category is a number.
pub uninterp spec fn char_is_numeric(c: char) -> bool;

/// `char::is_alphanumeric`: alphabetic or numeric.
pub uninterp spec fn char_is_alphanumeric(c: char) -> bool;

/// The characters of `char::to_lowercase`.
pub uninterp spec fn char_lowercase(c: char) -> Seq<char>;

/// Whether a character is numeric (`char::is_numeric`, Unicode tables).
#[verifier::external_body]
fn is_numeric(c: char) -> (b: bool)
    ensures
        b == char_is_numeric(c),
{
    c.is_numeric()
}

/// Whether a character is alphanumeric (`char::is_alphanumeric`, Unicode tables).
#[verifier::external_body]
fn is_alphanumeric(c: char) -> (b: bool)
    ensures
        b == char_is_alphanumeric(c),
{
    c.is_alphanumeric()
}

/// The lower-case mapping of a character (`char::to_lowercase`), one or more characters.
#[verifier::external_body]
fn to_lowercase(c: char) -> (v: Vec<char>)
    ensures
        v@ == char_lowercase(c),
{
    c.to_lowercase().collect()
}

pub const SHAPE_SCAN_CHARS: usize = 512;

pub const MIN_SHAPE_CHARS: usize = 12;

/// Shape of a text prefix and whether it ends inside a run of digits: each
/// run of numeric characters becomes one `#`, other alphanumerics are
/// lower-cased, everything else is dropped.
pub open spec fn shape_run(s: Seq<char>) -> (Seq<char>, bool)
    decreases s.len(),
{
    if s.len() == 0 {
        (Seq::empty(), false)
    } else {
        let (out, in_digits) = shape_run(s.drop_last());
        let c = s.last();
        if char_is_numeric(c) {
            if in_digits {
                (out, true)
            } else {
                (out.push('#'), true)
            }
        } else if char_is_alphanumeric(c) {
            (out + char_lowercase(c), false)
        } else {
            (out, false)
        }
    }
}

/// The shape of a text's first 512 characters, or `None` when it has fewer
/// than 12 characters.
pub open spec fn text_shape(text: Seq<char>) -> Option<Seq<char>> {
    let n = if text.len() < SHAPE_SCAN_CHARS {
        text.len() as int
    } else {
        SHAPE_SCAN_CHARS as int
    };
    let shape = shape_run(text.take(n)).0;
    if shape.len() < MIN_SHAPE_CHARS {
        None
    } else {
        Some(shape)
    }
}

/// The comparable shape of an answer text.
pub fn normalize_text_shape(text: &str) -> (r: Option<String>)
    ensures
        crate::llm::opt_view(r) == text_shape(text@),
{
    let chars = chars_of(text);
    let n = if chars.len() < SHAPE_SCAN_CHARS {
        chars.len()
    } else {
        SHAPE_SCAN_CHARS
    };
    let mut out: Vec<char> = Vec::new();
    let mut in_digits = false;
    let mut i: usize = 0;
    while i < n
        invariant
            i <= n <= chars.len(),
            chars@ == text@,
            (out@, in_digits) == shape_run(chars@.take(i as int)),
        decreases n - i,
    {
        let c = chars[i];
        proof {
            assert(chars@.take(i + 1).drop_last() =~= chars@.take(i as int));
        }
        if is_numeric(c) {
            if !in_digits {
                out.push('#');
                in_digits = true;
            }
        } else if is_alphanumeric(c) {
            let lower = to_lowercase(c);
            crate::text::extend_chars(&mut out, lower.as_slice());
            in_digits = false;
        } else {
            in_digits = false;
        }
        i = i + 1;
    }
    if out.len() < MIN_SHAPE_CHARS {
        return None;
    }
    Some(string_of(out.as_slice()))
}

/// Adjacent character pairs of `s`.
pub open spec fn bigrams(s: Seq<char>) -> Seq<(char, char)> {
    if s.len() < 2 {
        Seq::empty()
    } else {
        Seq::new((s.len() - 1) as nat, |i: int| (s[i], s[i + 1]))
    }
}

/// Index of the first occurrence of `x` in `r`, searching from `i`.
pub open spec fn first_index_from(r: Seq<(char, char)>, x: (char, char), i: int) -> Option<int>
    decreases r.len() - i,
{
    if i < 0 || i >= r.len() {
        None
    } else if r[i] == x {
        Some(i)
    } else {
        first_index_from(r, x, i + 1)
    }
}

/// Size of the multiset intersection of `l` and `r`.
pub open spec fn common_count(l: Seq<(char, char)>, r: Seq<(char, char)>) -> nat
    decreases l.len(),
{
    if l.len() == 0 {
        0
    } else {
        match first_index_from(r, l[0], 0) {
            Some(k) => 1 + common_count(l.drop_first(), r.remove(k)),
            None => common_count(l.drop_first(), r),
        }
    }
}

pub open spec fn sat_usize(x: int) -> int {
    if x > usize::MAX {
        usize::MAX as int
    } else {
        x
    }
}

/// Two shapes match when equal, or when their bigram multisets overlap with a
/// Dice coefficient of at least one half.
pub open spec fn shapes_match(left: Seq<char>, right: Seq<char>) -> bool {
    left == right || {
        let l = bigrams(left);
        let r = bigrams(right);
        l.len() > 0 && r.len() > 0 && sat_usize((200 * common_count(l, r)) as int) >= sat_usize(
            (50 * (l.len() + r.len())) as int,
        )
    }
}

fn bigrams_of(s: &[char]) -> (v: Vec<(char, char)>)
    ensures
        v@ == bigrams(s@),
{
    let mut v: Vec<(char, char)> = Vec::new();
    if s.len() < 2 {
        assert(v@ =~= bigrams(s@));
        return v;
    }
    let mut i: usize = 0;
    while i + 1 < s.len()
        invariant
            s.len() >= 2,
            i <= s.len() - 1,
            v@ == bigrams(s@).take(i as int),
        decreases s.len() - i,
    {
        v.push((s[i], s[i + 1]));
        assert(v@ =~= bigrams(s@).take(i + 1));
        i = i + 1;
    }
    assert(v@ =~= bigrams(s@));
    v
}

proof fn lemma_first_index_bounds(r: Seq<(char, char)>, x: (char, char), i: int)
    requires
        0 <= i,
    ensures
        first_index_from(r, x, i) matches Some(k) ==> i <= k < r.len() && r[k] == x,
        first_index_from(r, x, i) is None ==> forall|k: int| i <= k < r.len() ==> r[k] != x,
    decreases r.len() - i,
{
    if i < r.len() && r[i] != x {
        lemma_first_index_bounds(r, x, i + 1);
    }
}

proof fn lemma_common_count_bound(l: Seq<(char, char)>, r: Seq<(char, char)>)
    ensures
        common_count(l, r) <= l.len(),
    decreases l.len(),
{
    if l.len() > 0 {
        match first_index_from(r, l[0], 0) {
            Some(k) => lemma_common_count_bound(l.drop_first(), r.remove(k)),
            None => lemma_common_count_bound(l.drop_first(), r),
        }
    }
}

fn position_of(r: &Vec<(char, char)>, x: (char, char)) -> (p: Option<usize>)
    ensures
        match p {
            Some(k) => first_index_from(r@, x, 0) == Some(k as int) && k < r.len(),
            None => first_index_from(r@, x, 0) is None,
        },
{
    let mut i: usize = 0;
    while i < r.len()
        invariant
            i <= r.len(),
            first_index_from(r@, x, 0) == first_index_from(r@, x, i as int),
        decreases r.len() - i,
    {
        if r[i].0 == x.0 && r[i].1 == x.1 {
            assert(r@[i as int] == x);
            return Some(i);
        }
        i = i + 1;
    }
    None
}

/// Whether two answer shapes match.
pub fn text_shapes_match(left: &str, right: &str) -> (b: bool)
    ensures
        b == shapes_match(left@, right@),
{
    let lc = chars_of(left);
    let rc = chars_of(right);
    if crate::text::chars_eq(lc.as_slice(), rc.as_slice()) {
        return true;
    }
    let l = bigrams_of(lc.as_slice());
    let mut remaining = bigrams_of(rc.as_slice());
    if l.len() == 0 || remaining.len() == 0 {
        return false;
    }
    let ghost r0 = remaining@;
    let right_len = remaining.len();
    let mut common: usize = 0;
    let mut i: usize = 0;
    assert(l@.skip(0) =~= l@);
    while i < l.len()
        invariant
            i <= l.len(),
            common <= i,
            common + common_count(l@.skip(i as int), remaining@) == common_count(l@, r0),
        decreases l.len() - i,
    {
        proof {
            assert(l@.skip(i as int)[0] == l@[i as int]);
            assert(l@.skip(i as int).drop_first() =~= l@.skip(i + 1));
        }
        match position_of(&remaining, l[i]) {
            Some(k) => {
                remaining.remove(k);
                common = common + 1;
            },
            None => {},
        }
        i = i + 1;
    }
    proof {
        assert(l@.skip(l.len() as int) =~= Seq::<(char, char)>::empty());
        assert(l@.skip(0) =~= l@);
        lemma_common_count_bound(l@, r0);
    }
    let total: u128 = l.len() as u128 + right_len as u128;
    let lhs: u128 = 200 * (common as u128);
    let rhs: u128 = 50 * total;
    let max: u128 = usize::MAX as u128;
    let lhs_sat = if lhs > max {
        max
    } else {
        lhs
    };
    let rhs_sat = if rhs > max {
        max
    } else {
        rhs
    };
    lhs_sat >= rhs_sat
}

impl AgentLoopGuard {
    pub fn new() -> (g: AgentLoopGuard)
        ensures
            g@ == initial_guard_state(),
    {
        AgentLoopGuard {
            last_tool_signature: None,
            repeated_tool_signature_count: 0,
            repeated_tool_intervention_used: false,
            last_text_shape: None,
            repeated_text_fingerprint_count: 0,
            repeated_text_intervention_used: false,
            consecutive_tool_errors: 0,
            tool_error_intervention_used: false,
            consecutive_non_action_tool_steps: 0,
            bookkeeping_intervention_used: false,
        }
    }

    /// Observes one model step: its text and the tool calls it requested.
    pub fn observe_model_step(&mut self, assistant_text: &str, tool_calls: &[ToolCallRequest]) -> (r:
        Option<LoopGuardIntervention>)
        ensures
            (final(self)@, intervention_view(r)) == (if tool_calls@.len() > 0 {
                tool_batch_step(
                    old(self)@,
                    any_action_progress(calls_view(tool_calls@)),
                    batch_signature(calls_view(tool_calls@)),
                )
            } else {
                text_step(old(self)@, text_shape(assistant_text@))
            }),
    {
        if tool_calls.len() > 0 {
            let mut has_action_progress = false;
            let mut i: usize = 0;
            while i < tool_calls.len()
                invariant
                    i <= tool_calls.len(),
                    has_action_progress == exists|k: int|
                        0 <= k < i && is_action_progress(#[trigger] tool_calls@[k].name@),
                decreases tool_calls.len() - i,
            {
                if tool_call_is_action_progress(tool_calls[i].name.as_str()) {
                    has_action_progress = true;
                }
                i = i + 1;
            }
            proof {
                let views = calls_view(tool_calls@);
                if has_action_progress {
                    let k = choose|k: int|
                        0 <= k < tool_calls@.len() && is_action_progress(
                            #[trigger] tool_calls@[k].name@,
                        );
                    assert(views[k].name == tool_calls@[k].name@);
                }
                if any_action_progress(views) {
                    let k = choose|k: int|
                        0 <= k < views.len() && is_action_progress(#[trigger] views[k].name);
                    assert(views[k].name == tool_calls@[k].name@);
                }
            }
            let signature = tool_call_batch_signature(tool_calls);
            self.observe_tool_batch(has_action_progress, signature)
        } else {
            let shape = normalize_text_shape(assistant_text);
            self.observe_text_shape(shape)
        }
    }

    /// Observes a model step that requested tools, given whether some call is
    /// a concrete action and the batch's signature.
    pub fn observe_tool_batch(&mut self, has_action_progress: bool, signature: String) -> (r: Option<
        LoopGuardIntervention,
    >)
        ensures
            (final(self)@, intervention_view(r)) == tool_batch_step(
                old(self)@,
                has_action_progress,
                signature@,
            ),
    {
        if !has_action_progress {
            self.consecutive_non_action_tool_steps =
            self.consecutive_non_action_tool_steps.saturating_add(1);
            if self.consecutive_non_action_tool_steps >= NON_ACTION_TOOL_STEP_THRESHOLD {
                if self.bookkeeping_intervention_used {
                    return Some(
                        LoopGuardIntervention {
                            reason: String::from_str(
                                "The model continued emitting only plan or goal bookkeeping after the controller blocked that loop.",
                            ),
                            action: LoopGuardAction::StopLoop,
                            prompt: String::new(),
                        },
                    );
                }
                self.bookkeeping_intervention_used = true;
                return Some(
                    LoopGuardIntervention {
                        reason: String::from_str(
                            "The model emitted consecutive plan or goal bookkeeping steps without a concrete task action.",
                        ),
                        action: LoopGuardAction::BlockToolCalls,
                        prompt: String::from_str(
                            "## Loop Guard\nPlan and goal tools are optional bookkeeping, not prerequisites for task execution. Stop updating them now. Either call the concrete evidence or action tool, provide a truthful final answer, or ask one focused question.",
                        ),
                    },
                );
            }
        }
        let same = match &self.last_tool_signature {
            Some(previous) => *previous == signature,
            None => false,
        };
        if same {
            self.repeated_tool_signature_count = self.repeated_tool_signature_count.saturating_add(
                1,
            );
        } else {
            self.last_tool_signature = Some(signature);
            self.repeated_tool_signature_count = 1;
            self.repeated_tool_intervention_used = false;
        }
        if self.repeated_tool_signature_count >= REPEATED_TOOL_SIGNATURE_THRESHOLD {
            if self.repeated_tool_intervention_used {
                return Some(
                    LoopGuardIntervention {
                        reason: String::from_str(
                            "The model repeated the same tool-call batch after the bounded loop-guard intervention.",
                        ),
                        action: LoopGuardAction::StopLoop,
                        prompt: String::new(),
                    },
                );
            }
            self.repeated_tool_intervention_used = true;
            let mut reason = String::new();
            reason.append("The model requested the same tool call batch ");
            let count = decimal_string(self.repeated_tool_signature_count as u64);
            reason.append(count.as_str());
            reason.append(" times without visible progress.");
            return Some(
                LoopGuardIntervention {
                    reason,
                    action: LoopGuardAction::BlockToolCalls,
                    prompt: String::from_str(
                        "## Loop Guard\nThe previous tool-call batch was blocked because it repeated the same tool names and arguments without progress. Do not retry the same calls. Summarize what is known, choose a different tool/argument strategy, or ask the user for the missing information.",
                    ),
                },
            );
        }
        if has_action_progress {
            self.consecutive_non_action_tool_steps = 0;
            self.bookkeeping_intervention_used = false;
        }
        self.last_text_shape = None;
        self.repeated_text_fingerprint_count = 0;
        self.repeated_text_intervention_used = false;
        None
    }

    /// Observes a model step without tool calls, given its text shape.
    pub fn observe_text_shape(&mut self, shape: Option<String>) -> (r: Option<LoopGuardIntervention>)
        ensures
            (final(self)@, intervention_view(r)) == text_step(
                old(self)@,
                crate::llm::opt_view(shape),
            ),
    {
        let shape = match shape {
            Some(s) => s,
            None => {
                return None;
            },
        };
        let same = match &self.last_text_shape {
            Some(previous) => text_shapes_match(previous.as_str(), shape.as_str()),
            None => false,
        };
        if same {
            self.repeated_text_fingerprint_count =
            self.repeated_text_fingerprint_count.saturating_add(1);
        } else {
            self.last_text_shape = Some(shape);
            self.repeated_text_fingerprint_count = 1;
            self.repeated_text_intervention_used = false;
        }
        if self.repeated_text_fingerprint_count >= REPEATED_TEXT_FINGERPRINT_THRESHOLD {
            if self.repeated_text_intervention_used {
                return Some(
                    LoopGuardIntervention {
                        reason: String::from_str(
                            "The model repeated the same answer shape after the bounded loop-guard intervention.",
                        ),
                        action: LoopGuardAction::StopLoop,
                        prompt: String::new(),
                    },
                );
            }
            self.repeated_text_intervention_used = true;
            return Some(
                LoopGuardIntervention {
                    reason: String::from_str(
                        "The model produced the same final-text shape repeatedly without taking a new action.",
                    ),
                    action: LoopGuardAction::ChangeStrategy,
                    prompt: String::from_str(
                        "## Loop Guard\nThe last draft repeated an earlier answer shape without new progress. Make a concrete decision now: either provide the final answer with explicit uncertainty, use a different tool strategy, or ask one focused question.",
                    ),
                },
            );
        }
        None
    }

    /// Observes one tool result.
    pub fn observe_tool_result(&mut self, is_error: bool) -> (r: Option<LoopGuardIntervention>)
        ensures
            (final(self)@, intervention_view(r)) == tool_result_step(old(self)@, is_error),
    {
        if is_error {
            self.consecutive_tool_errors = self.consecutive_tool_errors.saturating_add(1);
        } else {
            self.consecutive_tool_errors = 0;
            self.tool_error_intervention_used = false;
        }
        if self.consecutive_tool_errors >= CONSECUTIVE_TOOL_ERROR_THRESHOLD {
            let count = decimal_string(self.consecutive_tool_errors as u64);
            if self.tool_error_intervention_used {
                let mut reason = String::new();
                reason.append("Observed ");
                reason.append(count.as_str());
                reason.append(" consecutive tool errors after the bounded loop-guard intervention.");
                return Some(
                    LoopGuardIntervention {
                        reason,
                        action: LoopGuardAction::StopLoop,
                        prompt: String::new(),
                    },
                );
            }
            self.tool_error_intervention_used = true;
            let mut reason = String::new();
            reason.append("Observed ");
            reason.append(count.as_str());
            reason.append(" consecutive tool errors.");
            return Some(
                LoopGuardIntervention {
                    reason,
                    action: LoopGuardAction::ChangeStrategy,
                    prompt: String::from_str(
                        "## Loop Guard\nSeveral tool calls failed in a row. Stop retrying the same approach. Inspect the latest error, reduce scope, change arguments, or answer with the recoverable limitation if the task cannot proceed.",
                    ),
                },
            );
        }
        None
    }
}

/// One observation the guard can make.
pub enum GuardEvent {
    ToolBatch { has_action_progress: bool, signature: Seq<char> },
    TextShape { shape: Option<Seq<char>> },
    ToolResult { is_error: bool },
}

pub open spec fn guard_step(s: GuardState, e: GuardEvent) -> (GuardState, Option<InterventionView>) {
    match e {
        GuardEvent::ToolBatch { has_action_progress, signature } => tool_batch_step(
            s,
            has_action_progress,
            signature,
        ),
        GuardEvent::TextShape { shape } => text_step(s, shape),
        GuardEvent::ToolResult { is_error } => tool_result_step(s, is_error),
    }
}

/// The state after a sequence of observations and what each one returned.
pub open spec fn guard_run(s: GuardState, events: Seq<GuardEvent>) -> (GuardState, Seq<Option<InterventionView>>)
    decreases events.len(),
{
    if events.len() == 0 {
        (s, Seq::empty())
    } else {
        let (s1, outs) = guard_run(s, events.drop_last());
        let (s2, o) = guard_step(s1, events.last());
        (s2, outs.push(o))
    }
}

pub open spec fn is_stop(o: Option<InterventionView>) -> bool {
    o matches Some(i) && i.action == LoopGuardAction::StopLoop
}

pub open spec fn is_warning(o: Option<InterventionView>) -> bool {
    o matches Some(i) && i.action != LoopGuardAction::StopLoop
}

pub open spec fn any_intervention_used(s: GuardState) -> bool {
    s.repeated_tool_intervention_used || s.repeated_text_intervention_used
        || s.tool_error_intervention_used || s.bookkeeping_intervention_used
}

proof fn lemma_step_flags(s: GuardState, e: GuardEvent)
    ensures
        is_stop(guard_step(s, e).1) ==> any_intervention_used(s),
        any_intervention_used(guard_step(s, e).0) ==> any_intervention_used(s) || is_warning(
            guard_step(s, e).1,
        ),
{
}

proof fn lemma_run_flags(events: Seq<GuardEvent>)
    ensures
        guard_run(initial_guard_state(), events).1.len() == events.len(),
        any_intervention_used(guard_run(initial_guard_state(), events).0) ==> exists|j: int|
            0 <= j < events.len() && is_warning(#[trigger] guard_run(initial_guard_state(), events).1[j]),
        forall|i: int|
            0 <= i < events.len() && is_stop(#[trigger] guard_run(initial_guard_state(), events).1[i])
                ==> exists|j: int|
                0 <= j < i && is_warning(guard_run(initial_guard_state(), events).1[j]),
    decreases events.len(),
{
    if events.len() > 0 {
        let prev = events.drop_last();
        lemma_run_flags(prev);
        let (s1, outs) = guard_run(initial_guard_state(), prev);
        lemma_step_flags(s1, events.last());
        let all = guard_run(initial_guard_state(), events).1;
        assert(all == outs.push(guard_step(s1, events.last()).1));
        assert forall|j: int| 0 <= j < prev.len() implies all[j] == outs[j] by {}
        if any_intervention_used(guard_run(initial_guard_state(), events).0) {
            if any_intervention_used(s1) {
                let j = choose|j: int| 0 <= j < prev.len() && is_warning(#[trigger] outs[j]);
                assert(all[j] == outs[j]);
            } else {
                assert(is_warning(all[prev.len() as int]));
            }
        }
        assert forall|i: int|
            0 <= i < events.len() && is_stop(#[trigger] all[i]) implies exists|j: int|
                0 <= j < i && is_warning(all[j]) by {
            if i < prev.len() {
                assert(all[i] == outs[i]);
                let j = choose|j: int| 0 <= j < i && is_warning(#[trigger] outs[j]);
                assert(all[j] == outs[j]);
            } else {
                let j = choose|j: int| 0 <= j < prev.len() && is_warning(#[trigger] outs[j]);
                assert(all[j] == outs[j]);
            }
        }
    }
}

/// From a fresh guard, whatever it observes, it never stops the loop without
/// having first returned a bounded intervention (block or change strategy).
pub proof fn law_stop_only_after_a_bounded_intervention(events: Seq<GuardEvent>, i: int)
    requires
        0 <= i < events.len(),
        is_stop(guard_run(initial_guard_state(), events).1[i]),
    ensures
        exists|j: int| 0 <= j < i && is_warning(guard_run(initial_guard_state(), events).1[j]),
{
    lemma_run_flags(events);
}

/// A successful tool result clears the error streak and never intervenes.
pub proof fn law_tool_success_resets_the_error_streak(s: GuardState)
    ensures
        tool_result_step(s, false).1 is None,
        tool_result_step(s, false).0.consecutive_tool_errors == 0,
        !tool_result_step(s, false).0.tool_error_intervention_used,
{
}

/// A tool-call step that passes the guard without intervening clears the
/// text tracker: no remembered text shape, a zero repeat count, and the text
/// intervention marked unused. So the text step right after it never
/// intervenes, whatever the shape of its text.
pub proof fn law_passing_tool_step_clears_text_tracking(
    s: GuardState,
    has_action_progress: bool,
    signature: Seq<char>,
    shape: Option<Seq<char>>,
)
    requires
        tool_batch_step(s, has_action_progress, signature).1 is None,
    ensures
        tool_batch_step(s, has_action_progress, signature).0.last_text_shape is None,
        tool_batch_step(s, has_action_progress, signature).0.repeated_text_fingerprint_count == 0,
        !tool_batch_step(s, has_action_progress, signature).0.repeated_text_intervention_used,
        text_step(tool_batch_step(s, has_action_progress, signature).0, shape).1 is None,
{
}

} // verus!
