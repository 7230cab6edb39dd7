//! Turn-aware boundaries for compacting a conversation's history.

use vstd::prelude::*;

use crate::llm::{calls_view, clone_opt_string, duplicate_calls, messages_view, ImageAttachment, Message, MessageView, Role, ToolCallRequest, Usage};
use crate::prompt_cache::{role_label, role_label_str};
use crate::text::{chars_of, contains_chars, contains_seq, decimal, decimal_string};

verus! {

pub const MIN_RECENT_TURNS: usize = 2;

pub const EARLIER_CONTEXT_HEADING: &'static str = "## Earlier conversation context";

/// A message ends the stable system prefix: it is not a system message, or
/// it is an earlier compaction checkpoint.
pub open spec fn ends_system_prefix(m: MessageView) -> bool {
    m.role != Role::System || contains_seq(m.content, EARLIER_CONTEXT_HEADING@)
}

/// Index of the first message from `i` on that ends the system prefix.
pub open spec fn prefix_end_from(ms: Seq<MessageView>, i: int) -> int
    decreases ms.len() - i,
{
    if i < 0 || i >= ms.len() {
        ms.len() as int
    } else if ends_system_prefix(ms[i]) {
        i
    } else {
        prefix_end_from(ms, i + 1)
    }
}

proof fn lemma_prefix_end_bounds(ms: Seq<MessageView>, i: int)
    requires
        0 <= i <= ms.len(),
    ensures
        i <= prefix_end_from(ms, i) <= ms.len(),
    decreases ms.len() - i,
{
    if i < ms.len() && !ends_system_prefix(ms[i]) {
        lemma_prefix_end_bounds(ms, i + 1);
    }
}

/// Length of the stable system prefix of a message list.
pub fn system_prefix_end(messages: &[Message]) -> (n: usize)
    ensures
        n == prefix_end_from(messages_view(messages@), 0),
        n <= messages.len(),
{
    let ghost ms = messages_view(messages@);
    let heading = chars_of(EARLIER_CONTEXT_HEADING);
    let mut i: usize = 0;
    while i < messages.len()
        invariant
            i <= messages.len(),
            ms == messages_view(messages@),
            heading@ == EARLIER_CONTEXT_HEADING@,
            prefix_end_from(ms, 0) == prefix_end_from(ms, i as int),
        decreases messages.len() - i,
    {
        let content = chars_of(messages[i].content.as_str());
        assert(ms[i as int] == messages@[i as int]@);
        if messages[i].role != Role::System || contains_chars(
            content.as_slice(),
            heading.as_slice(),
        ) {
            return i;
        }
        i = i + 1;
    }
    i
}

/// Indices, from `i` on, of the user messages.
pub open spec fn user_starts_from(ms: Seq<MessageView>, i: int) -> Seq<int>
    decreases ms.len() - i,
{
    if i < 0 || i >= ms.len() {
        Seq::empty()
    } else if ms[i].role == Role::User {
        seq![i] + user_starts_from(ms, i + 1)
    } else {
        user_starts_from(ms, i + 1)
    }
}

/// Sum of the token estimates from index `from` to the end.
pub open spec fn tail_tokens(tokens: Seq<u32>, from: int) -> nat
    decreases tokens.len() - from,
{
    if from < 0 || from >= tokens.len() {
        0
    } else {
        (tokens[from] + tail_tokens(tokens, from + 1)) as nat
    }
}

/// The first allowed boundary `starts[j..=last]` whose tail fits the target,
/// or the last allowed one.
pub open spec fn boundary_scan(starts: Seq<int>, tokens: Seq<u32>, target: nat, j: int, last: int) -> int
    decreases last - j,
{
    if j >= last {
        starts[last]
    } else if tail_tokens(tokens, starts[j]) <= target {
        starts[j]
    } else {
        boundary_scan(starts, tokens, target, j + 1, last)
    }
}

/// Where to end the evicted part of the history: a user message after the
/// stable prefix (never the first one, and keeping the last
/// `min_recent_turns` user turns), the earliest whose tail fits within
/// `target_tail_tokens`, else the latest allowed one; `None` when there are
/// not more than `min_recent_turns` user turns.
pub open spec fn compaction_boundary_spec(
    ms: Seq<MessageView>,
    tokens: Seq<u32>,
    target_tail_tokens: nat,
    min_recent_turns: nat,
) -> Option<int> {
    let starts = user_starts_from(ms, prefix_end_from(ms, 0));
    if starts.len() <= min_recent_turns {
        None
    } else {
        Some(
            boundary_scan(
                starts,
                tokens,
                target_tail_tokens,
                1,
                starts.len() - min_recent_turns,
            ),
        )
    }
}

proof fn lemma_user_starts(ms: Seq<MessageView>, i: int)
    requires
        0 <= i <= ms.len(),
    ensures
        forall|k: int|
            0 <= k < user_starts_from(ms, i).len() ==> i <= #[trigger] user_starts_from(ms, i)[k]
                < ms.len(),
        user_starts_from(ms, i).len() <= ms.len() - i,
    decreases ms.len() - i,
{
    if i < ms.len() {
        lemma_user_starts(ms, i + 1);
    }
}

proof fn lemma_user_starts_are_users(ms: Seq<MessageView>, i: int)
    requires
        0 <= i <= ms.len(),
    ensures
        forall|k: int|
            0 <= k < user_starts_from(ms, i).len() ==> ms[#[trigger] user_starts_from(ms, i)[k]].role
                == Role::User,
    decreases ms.len() - i,
{
    if i < ms.len() {
        lemma_user_starts_are_users(ms, i + 1);
        if ms[i].role == Role::User {
            assert forall|k: int| 0 <= k < user_starts_from(ms, i).len() implies ms[
                #[trigger] user_starts_from(ms, i)[k]].role == Role::User by {
                if k > 0 {
                    assert(user_starts_from(ms, i)[k] == user_starts_from(ms, i + 1)[k - 1]);
                }
            }
        }
    }
}

proof fn lemma_boundary_scan_picks_a_start(starts: Seq<int>, tokens: Seq<u32>, target: nat, j: int, last: int)
    requires
        1 <= j <= last < starts.len(),
    ensures
        exists|k: int| j <= k <= last && starts[k] == boundary_scan(starts, tokens, target, j, last),
    decreases last - j,
{
    if j >= last {
        assert(starts[last] == boundary_scan(starts, tokens, target, j, last));
    } else if tail_tokens(tokens, starts[j]) <= target {
        assert(starts[j] == boundary_scan(starts, tokens, target, j, last));
    } else {
        lemma_boundary_scan_picks_a_start(starts, tokens, target, j + 1, last);
    }
}

/// The boundary is a later user turn inside the allowed window: it starts a
/// user message after the stable prefix, it is never the first user turn,
/// and it lies at or before the `min_recent_turns`-th last user turn, so at
/// least `min_recent_turns` user turns start at or after it; there is
/// none exactly when there are no more than `min_recent_turns` user turns.
pub proof fn law_boundary_is_a_later_user_turn_in_the_window(
    ms: Seq<MessageView>,
    tokens: Seq<u32>,
    target_tail_tokens: nat,
    min_recent_turns: nat,
)
    requires
        min_recent_turns >= 1,
    ensures
        ({
            let starts = user_starts_from(ms, prefix_end_from(ms, 0));
            &&& (compaction_boundary_spec(ms, tokens, target_tail_tokens, min_recent_turns) is None
                <==> starts.len() <= min_recent_turns)
            &&& (compaction_boundary_spec(ms, tokens, target_tail_tokens, min_recent_turns) matches Some(b)
                ==> {
                &&& exists|k: int|
                    1 <= k <= starts.len() - min_recent_turns && #[trigger] starts[k] == b
                &&& prefix_end_from(ms, 0) <= b < ms.len()
                &&& ms[b].role == Role::User
                &&& b != starts[0]
                &&& b <= starts[starts.len() - min_recent_turns]
            })
        }),
{
    let p = prefix_end_from(ms, 0);
    lemma_prefix_end_bounds(ms, 0);
    let starts = user_starts_from(ms, p);
    lemma_user_starts(ms, p);
    lemma_user_starts_are_users(ms, p);
    if starts.len() > min_recent_turns {
        let last = starts.len() - min_recent_turns;
        lemma_boundary_scan_picks_a_start(starts, tokens, target_tail_tokens, 1, last);
        let b = boundary_scan(starts, tokens, target_tail_tokens, 1, last);
        let k = choose|k: int| 1 <= k <= last && starts[k] == b;
        assert(starts[k] == b);
        lemma_user_starts_strictly_increase(ms, p);
        assert(starts[0] < starts[k]);
        if k < last {
            assert(starts[k] < starts[last]);
        }
    }
}

proof fn lemma_user_starts_strictly_increase(ms: Seq<MessageView>, i: int)
    requires
        0 <= i <= ms.len(),
    ensures
        forall|a: int, b: int|
            0 <= a < b < user_starts_from(ms, i).len() ==> #[trigger] user_starts_from(ms, i)[a]
                < #[trigger] user_starts_from(ms, i)[b],
    decreases ms.len() - i,
{
    if i < ms.len() {
        lemma_user_starts_strictly_increase(ms, i + 1);
        lemma_user_starts(ms, i + 1);
        if ms[i].role == Role::User {
            let s = user_starts_from(ms, i);
            let t = user_starts_from(ms, i + 1);
            assert forall|a: int, b: int| 0 <= a < b < s.len() implies #[trigger] s[a] < #[trigger] s[b] by {
                assert(s[b] == t[b - 1]);
                if a > 0 {
                    assert(s[a] == t[a - 1]);
                } else {
                    assert(s[a] == i);
                    assert(i + 1 <= t[b - 1]);
                }
            }
        }
    }
}

proof fn lemma_tail_step(tokens: Seq<u32>, k: int)
    requires
        0 <= k < tokens.len(),
    ensures
        tail_tokens(tokens, k) == tokens[k] + tail_tokens(tokens, k + 1),
{
}

proof fn lemma_tail_bound(tokens: Seq<u32>, a: int, b: int)
    requires
        0 <= a <= b,
    ensures
        tail_tokens(tokens, b) <= tail_tokens(tokens, a),
    decreases b - a,
{
    if a < b {
        lemma_tail_bound(tokens, a + 1, b);
    }
}

fn tail_sum(tokens: &[u32], from: usize) -> (s: u32)
    requires
        tail_tokens(tokens@, 0) <= u32::MAX,
        from <= tokens.len(),
    ensures
        s == tail_tokens(tokens@, from as int),
{
    let mut s: u32 = 0;
    let mut k: usize = tokens.len();
    while k > from
        invariant
            from <= k <= tokens.len(),
            tail_tokens(tokens@, 0) <= u32::MAX,
            s == tail_tokens(tokens@, k as int),
        decreases k,
    {
        proof {
            lemma_tail_step(tokens@, k - 1);
            lemma_tail_bound(tokens@, 0, k - 1);
        }
        s = s + tokens[k - 1];
        k = k - 1;
    }
    s
}

/// An exclusive eviction boundary that keeps whole user turns (so a tool
/// call and its results are never split), given each message's token
/// estimate.
pub fn compaction_boundary(
    messages: &[Message],
    message_tokens: &[u32],
    target_tail_tokens: u32,
    min_recent_turns: usize,
) -> (r: Option<usize>)
    requires
        message_tokens.len() == messages.len(),
        tail_tokens(message_tokens@, 0) <= u32::MAX,
        min_recent_turns >= 1,
    ensures
        match r {
            Some(b) => compaction_boundary_spec(
                messages_view(messages@),
                message_tokens@,
                target_tail_tokens as nat,
                min_recent_turns as nat,
            ) == Some(b as int),
            None => compaction_boundary_spec(
                messages_view(messages@),
                message_tokens@,
                target_tail_tokens as nat,
                min_recent_turns as nat,
            ) is None,
        },
{
    let ghost ms = messages_view(messages@);
    let prefix_end = system_prefix_end(messages);
    let mut starts: Vec<usize> = Vec::new();
    let mut i: usize = messages.len();
    proof {
        lemma_prefix_end_bounds(ms, 0);
    }
    while i > prefix_end
        invariant
            prefix_end <= i <= messages.len(),
            ms == messages_view(messages@),
            starts@.map_values(|x: usize| x as int) == user_starts_from(ms, i as int),
        decreases i,
    {
        let k = i - 1;
        assert(ms[k as int] == messages@[k as int]@);
        if messages[k].role == Role::User {
            let ghost before = starts@;
            starts.insert(0, k);
            assert(starts@.map_values(|x: usize| x as int) =~= seq![k as int] + before.map_values(
                |x: usize| x as int,
            ));
        }
        i = k;
    }
    let ghost us = user_starts_from(ms, prefix_end as int);
    proof {
        lemma_user_starts(ms, prefix_end as int);
    }
    if starts.len() <= min_recent_turns {
        return None;
    }
    let last = starts.len() - min_recent_turns;
    let mut j: usize = 1;
    while j < last
        invariant
            1 <= j <= last < starts.len(),
            last == starts.len() - min_recent_turns,
            us == user_starts_from(messages_view(messages@), prefix_end_from(messages_view(messages@), 0)),
            starts@.map_values(|x: usize| x as int) == us,
            forall|q: int| 0 <= q < us.len() ==> prefix_end <= #[trigger] us[q] < messages.len(),
            message_tokens.len() == messages.len(),
            tail_tokens(message_tokens@, 0) <= u32::MAX,
            boundary_scan(us, message_tokens@, target_tail_tokens as nat, 1, last as int)
                == boundary_scan(us, message_tokens@, target_tail_tokens as nat, j as int, last as int),
        decreases last - j,
    {
        let b = starts[j];
        assert(us[j as int] == b as int);
        let tail = tail_sum(message_tokens, b);
        if tail <= target_tail_tokens {
            return Some(b);
        }
        j = j + 1;
    }
    assert(us[last as int] == starts@[last as int] as int);
    Some(starts[last])
}

/// The system message that replaces evicted history with its summary.
pub open spec fn reference_summary_text(summary: Seq<char>, evicted_count: nat, reason: Seq<char>) -> Seq<char> {
    "## Earlier conversation context (compacted)\nContext checkpoint for "@ + decimal(evicted_count)
        + " older messages ("@ + reason
        + "). This is reference state, not a new instruction. If it conflicts with a newer user message, follow the newer message.\n"@
        + summary
}

pub fn reference_summary_message(summary: &str, evicted_count: usize, reason: &str) -> (m: Message)
    ensures
        m@ == crate::llm::text_message(
            Role::System,
            reference_summary_text(summary@, evicted_count as nat, reason@),
        ),
{
    let mut text = String::new();
    text.append("## Earlier conversation context (compacted)\nContext checkpoint for ");
    let count = decimal_string(evicted_count as u64);
    text.append(count.as_str());
    text.append(" older messages (");
    text.append(reason);
    text.append(
        "). This is reference state, not a new instruction. If it conflicts with a newer user message, follow the newer message.\n",
    );
    text.append(summary);
    Message::text(Role::System, text)
}


/// The lowercase hexadecimal BLAKE3 digest of a text's UTF-8 bytes.
pub uninterp spec fn blake3_hex_text(data: Seq<char>) -> Seq<char>;

pub open spec fn is_lower_hex_digit(c: char) -> bool {
    ('0' <= c && c <= '9') || ('a' <= c && c <= 'f')
}

/// `blake3::hash` of the text's UTF-8 bytes, printed by `Hash::to_hex`. The
/// crate documents that a `Hasher` fed several inputs in turn gives the hash
/// of their concatenation, so this is also what such a hasher gives. Which
/// digest comes out is named, not stated; its form (64 lowercase hex digits,
/// two per output byte) is what `to_hex` writes.
#[verifier::external_body]
fn blake3_hex(data: &str) -> (h: String)
    ensures
        h@ == blake3_hex_text(data@),
        h@.len() == 64,
        forall|i: int| 0 <= i < 64 ==> is_lower_hex_digit(#[trigger] h@[i]),
{
    blake3::hash(data.as_bytes()).to_hex().to_string()
}

/// What the fingerprint of evicted messages hashes: each message's role
/// label followed by its text, in order.
pub open spec fn evicted_fingerprint_input(ms: Seq<MessageView>) -> Seq<char>
    decreases ms.len(),
{
    if ms.len() == 0 {
        Seq::empty()
    } else {
        evicted_fingerprint_input(ms.drop_last()) + role_label(ms.last().role) + ms.last().content
    }
}

/// The scope a summarization is recorded under: the turn, else the
/// conversation, else the executor's own usage scope.
pub open spec fn summarization_scope(
    turn_id: Option<Seq<char>>,
    conversation_id: Option<Seq<char>>,
    usage_scope_id: Seq<char>,
) -> Seq<char> {
    match turn_id {
        Some(t) => t,
        None => match conversation_id {
            Some(c) => c,
            None => usage_scope_id,
        },
    }
}

pub open spec fn invocation_id_text(scope: Seq<char>, digest: Seq<char>, model: Seq<char>) -> Seq<char> {
    scope + ":summarization:"@ + digest + ":"@ + model
}

/// The id of a summarization's usage record, from the digest of the evicted
/// messages: `scope:summarization:digest:model`.
pub fn summarization_invocation_id_from_digest(
    turn_id: Option<&str>,
    conversation_id: Option<&str>,
    usage_scope_id: &str,
    digest: &str,
    model: &str,
) -> (id: String)
    ensures
        id@ == invocation_id_text(
            summarization_scope(
                crate::power_mode::opt_view(turn_id),
                crate::power_mode::opt_view(conversation_id),
                usage_scope_id@,
            ),
            digest@,
            model@,
        ),
{
    let scope = match turn_id {
        Some(t) => t,
        None => match conversation_id {
            Some(c) => c,
            None => usage_scope_id,
        },
    };
    let mut id = String::new();
    id.append(scope);
    id.append(":summarization:");
    id.append(digest);
    id.append(":");
    id.append(model);
    proof {
        reveal_strlit(":summarization:");
        reveal_strlit(":");
    }
    id
}

/// The text the fingerprint of `evicted` hashes.
fn evicted_fingerprint_text(evicted: &[Message]) -> (s: String)
    ensures
        s@ == evicted_fingerprint_input(messages_view(evicted@)),
{
    let ghost views = messages_view(evicted@);
    let mut s = String::new();
    let mut i: usize = 0;
    while i < evicted.len()
        invariant
            i <= evicted@.len(),
            views == messages_view(evicted@),
            s@ == evicted_fingerprint_input(views.take(i as int)),
        decreases evicted@.len() - i,
    {
        assert(views.take(i + 1).drop_last() =~= views.take(i as int));
        s.append(role_label_str(evicted[i].role));
        s.append(evicted[i].content.as_str());
        i += 1;
    }
    assert(views.take(evicted@.len() as int) =~= views);
    s
}

/// The id of the usage record of a summarization that evicted `evicted`:
/// the scope, then the BLAKE3 digest of the evicted messages' role labels
/// and texts, then the model.
pub fn summarization_invocation_id(
    turn_id: Option<&str>,
    conversation_id: Option<&str>,
    usage_scope_id: &str,
    evicted: &[Message],
    model: &str,
) -> (id: String)
    ensures
        id@ == invocation_id_text(
            summarization_scope(
                crate::power_mode::opt_view(turn_id),
                crate::power_mode::opt_view(conversation_id),
                usage_scope_id@,
            ),
            blake3_hex_text(evicted_fingerprint_input(messages_view(evicted@))),
            model@,
        ),
{
    let text = evicted_fingerprint_text(evicted);
    let digest = blake3_hex(text.as_str());
    summarization_invocation_id_from_digest(
        turn_id,
        conversation_id,
        usage_scope_id,
        digest.as_str(),
        model,
    )
}

/// Token counts of a provider's usage report as a usage record keeps them.
#[derive(Debug, Clone, Copy, PartialEq, Eq, Structural)]
pub struct UsageRecordTokens {
    pub prompt_tokens: u64,
    pub completion_tokens: u64,
    pub thinking_tokens: u64,
    pub total_tokens: u64,
    pub cache_read_tokens: u64,
    pub cache_miss_tokens: u64,
    pub cache_creation_tokens: u64,
}

pub open spec fn or_zero(o: Option<u32>) -> u64 {
    match o {
        Some(v) => v as u64,
        None => 0,
    }
}

/// The recorded total: the reported total, raised to the sum of prompt and
/// completion tokens (saturated at `u32::MAX`) when that is larger.
pub open spec fn recorded_total(usage: Usage) -> u64 {
    let sum = if usage.prompt_tokens + usage.completion_tokens > u32::MAX {
        u32::MAX as int
    } else {
        usage.prompt_tokens + usage.completion_tokens
    };
    if usage.total_tokens >= sum {
        usage.total_tokens as u64
    } else {
        sum as u64
    }
}

/// The counts a usage record stores: each reported count, zero where none
/// was reported, and a total never below prompt plus completion.
pub fn usage_record_tokens(usage: &Usage) -> (t: UsageRecordTokens)
    ensures
        t.prompt_tokens == usage.prompt_tokens,
        t.completion_tokens == usage.completion_tokens,
        t.thinking_tokens == or_zero(usage.thinking_tokens),
        t.total_tokens == recorded_total(*usage),
        t.cache_read_tokens == or_zero(usage.cache_read_tokens),
        t.cache_miss_tokens == or_zero(usage.cache_miss_tokens),
        t.cache_creation_tokens == or_zero(usage.cache_creation_tokens),
{
    let sum: u32 = usage.prompt_tokens.saturating_add(usage.completion_tokens);
    let total: u32 = if usage.total_tokens >= sum {
        usage.total_tokens
    } else {
        sum
    };
    UsageRecordTokens {
        prompt_tokens: usage.prompt_tokens as u64,
        completion_tokens: usage.completion_tokens as u64,
        thinking_tokens: match usage.thinking_tokens {
            Some(v) => v as u64,
            None => 0,
        },
        total_tokens: total as u64,
        cache_read_tokens: match usage.cache_read_tokens {
            Some(v) => v as u64,
            None => 0,
        },
        cache_miss_tokens: match usage.cache_miss_tokens {
            Some(v) => v as u64,
            None => 0,
        },
        cache_creation_tokens: match usage.cache_creation_tokens {
            Some(v) => v as u64,
            None => 0,
        },
    }
}


/// A stored conversation message as the history keeps it. `artifacts`
/// holds the message's artifact JSON as text.
#[derive(Debug)]
pub struct ConversationMessage {
    pub id: String,
    pub conversation_id: String,
    pub role: Role,
    pub content: String,
    pub tool_call_id: Option<String>,
    pub tool_calls: Vec<ToolCallRequest>,
    pub artifacts: Option<String>,
    pub token_count: u32,
    pub created_at: String,
    pub sort_order: i64,
    pub thinking: Option<String>,
    pub image_attachments: Option<Vec<ImageAttachment>>,
}

/// `m` moved to position `k` of the history.
pub open spec fn with_sort_order(m: ConversationMessage, k: int) -> ConversationMessage {
    ConversationMessage { sort_order: k as i64, ..m }
}

/// The history after compaction: the stable prefix `[0, prefix_end)` as it
/// was, the summary checkpoint where the evicted span began, then the kept
/// messages from `evict_end` on, renumbered to follow it.
pub open spec fn compacted_history_spec(
    ms: Seq<ConversationMessage>,
    prefix_end: int,
    evict_end: int,
    summary: ConversationMessage,
) -> Seq<ConversationMessage> {
    ms.take(prefix_end).push(with_sort_order(summary, prefix_end)) + Seq::new(
        (ms.len() - evict_end) as nat,
        |j: int| with_sort_order(ms[evict_end + j], prefix_end + 1 + j),
    )
}

/// Replaces the evicted span `[prefix_end, evict_end)` of a conversation's
/// history with the summary checkpoint, keeping persisted and in-memory
/// ordering identical.
pub fn apply_compaction(
    messages: Vec<ConversationMessage>,
    prefix_end: usize,
    evict_end: usize,
    summary: ConversationMessage,
) -> (r: Vec<ConversationMessage>)
    requires
        prefix_end <= evict_end <= messages@.len(),
        messages@.len() < i64::MAX,
    ensures
        r@ == compacted_history_spec(messages@, prefix_end as int, evict_end as int, summary),
{
    let ghost ms = messages@;
    let n = messages.len();
    let mut out = messages;
    let mut rest = out.split_off(evict_end);
    out.truncate(prefix_end);
    let mut summary = summary;
    summary.sort_order = prefix_end as i64;
    out.push(summary);
    let ghost head = out@;
    let ghost tail = rest@;
    let t = rest.len();
    assert(tail =~= ms.subrange(evict_end as int, ms.len() as int));
    // Reverse the kept tail, then take it back in order.
    let mut rev: Vec<ConversationMessage> = Vec::new();
    while rest.len() > 0
        invariant
            rest@ == tail.take(rest@.len() as int),
            rest@.len() <= t,
            t == tail.len(),
            rev@.len() == t - rest@.len(),
            forall|j: int| 0 <= j < rev@.len() ==> #[trigger] rev@[j] == tail[t - 1 - j],
        decreases rest@.len(),
    {
        let ghost k = rest@.len();
        let m = rest.pop().unwrap();
        assert(m == tail[k - 1]);
        rev.push(m);
        assert(rest@ =~= tail.take(k - 1));
    }
    let mut j: usize = 0;
    while rev.len() > 0
        invariant
            t == tail.len(),
            tail == ms.subrange(evict_end as int, ms.len() as int),
            ms.len() < i64::MAX,
            ms.len() == n,
            prefix_end <= evict_end <= ms.len(),
            j + rev@.len() == t,
            forall|q: int| 0 <= q < rev@.len() ==> #[trigger] rev@[q] == tail[t - 1 - q],
            out@ == head + Seq::new(j as nat, |q: int| with_sort_order(tail[q], prefix_end + 1 + q)),
        decreases rev@.len(),
    {
        assert(t == ms.len() - evict_end);
        let mut m = rev.pop().unwrap();
        assert(m == tail[j as int]);
        m.sort_order = (prefix_end + 1 + j) as i64;
        let ghost before = out@;
        out.push(m);
        assert(out@ =~= head + Seq::new((j + 1) as nat, |q: int| with_sort_order(tail[q], prefix_end + 1 + q)));
        j += 1;
    }
    assert(head =~= ms.take(prefix_end as int).push(with_sort_order(summary, prefix_end as int)));
    assert(out@ =~= compacted_history_spec(ms, prefix_end as int, evict_end as int, summary));
    out
}


/// The compaction of a history whose prompt budget is `budget` tokens:
/// nothing for an empty history or a zero budget, or when no boundary
/// keeps the last user turn; otherwise the evicted span runs from the end
/// of the stable system prefix to the boundary.
pub open spec fn compaction_plan_spec(
    ms: Seq<MessageView>,
    tokens: Seq<u32>,
    budget: u32,
    target_tail_tokens: u32,
) -> Option<(int, int)> {
    if ms.len() == 0 || budget == 0 {
        None
    } else {
        match compaction_boundary_spec(ms, tokens, target_tail_tokens as nat, 1) {
            None => None,
            Some(b) => Some((prefix_end_from(ms, 0), b)),
        }
    }
}

/// Decides whether a manual compaction changes the history, and which span
/// it evicts. `target_tail_tokens` is the share of the budget the kept tail
/// may use.
pub fn compaction_plan(
    messages: &[Message],
    message_tokens: &[u32],
    budget: u32,
    target_tail_tokens: u32,
) -> (r: Option<(usize, usize)>)
    requires
        message_tokens.len() == messages.len(),
        tail_tokens(message_tokens@, 0) <= u32::MAX,
    ensures
        match r {
            Some((p, b)) => compaction_plan_spec(
                messages_view(messages@),
                message_tokens@,
                budget,
                target_tail_tokens,
            ) == Some((p as int, b as int)) && p <= b <= messages.len(),
            None => compaction_plan_spec(
                messages_view(messages@),
                message_tokens@,
                budget,
                target_tail_tokens,
            ) is None,
        },
{
    if messages.len() == 0 || budget == 0 {
        return None;
    }
    let prefix_end = system_prefix_end(messages);
    match compaction_boundary(messages, message_tokens, target_tail_tokens, 1) {
        None => None,
        Some(b) => {
            proof {
                law_boundary_is_a_later_user_turn_in_the_window(
                    messages_view(messages@),
                    message_tokens@,
                    target_tail_tokens as nat,
                    1,
                );
            }
            Some((prefix_end, b))
        },
    }
}

/// The summary checkpoint of a compaction: a system message holding the
/// reference summary of `evicted_count` messages.
pub open spec fn is_summary_checkpoint(
    m: ConversationMessage,
    id: Seq<char>,
    conversation_id: Seq<char>,
    summary: Seq<char>,
    evicted_count: nat,
    token_count: u32,
) -> bool {
    &&& m.id@ == id
    &&& m.conversation_id@ == conversation_id
    &&& m.role == Role::System
    &&& m.content@ == reference_summary_text(summary, evicted_count, "manual compaction"@)
    &&& m.tool_call_id is None
    &&& m.tool_calls@.len() == 0
    &&& m.artifacts is None
    &&& m.token_count == token_count
    &&& m.created_at@.len() == 0
    &&& m.thinking is None
    &&& m.image_attachments is None
}

pub fn summary_checkpoint(
    id: String,
    conversation_id: String,
    summary: &str,
    evicted_count: usize,
    token_count: u32,
) -> (m: ConversationMessage)
    ensures
        is_summary_checkpoint(m, id@, conversation_id@, summary@, evicted_count as nat, token_count),
{
    let message = reference_summary_message(summary, evicted_count, "manual compaction");
    proof {
        reveal_strlit("manual compaction");
    }
    ConversationMessage {
        id,
        conversation_id,
        role: Role::System,
        content: message.content,
        tool_call_id: None,
        tool_calls: Vec::new(),
        artifacts: None,
        token_count,
        created_at: String::new(),
        sort_order: 0,
        thinking: None,
        image_attachments: None,
    }
}

/// The history after a manual compaction: unchanged without a plan,
/// otherwise the planned span replaced by the summary checkpoint.
pub fn compact_history(
    messages: Vec<ConversationMessage>,
    plan: Option<(usize, usize)>,
    summary: ConversationMessage,
) -> (r: Vec<ConversationMessage>)
    requires
        match plan {
            Some((p, b)) => p <= b <= messages@.len(),
            None => true,
        },
        messages@.len() < i64::MAX,
    ensures
        match plan {
            None => r@ == messages@,
            Some((p, b)) => r@ == compacted_history_spec(messages@, p as int, b as int, summary),
        },
{
    match plan {
        None => messages,
        Some((p, b)) => apply_compaction(messages, p, b, summary),
    }
}

/// The model message a stored message is compacted as: its role and LLM
/// context text, the tool-call id as its name, its tool calls if it has
/// any, and (for an assistant) its thinking as reasoning.
pub fn compaction_llm_message(m: &ConversationMessage, context_content: String) -> (r: Message)
    ensures
        r.role == m.role,
        r.content@ == context_content@,
        crate::llm::opt_view(r.name) == crate::llm::opt_view(m.tool_call_id),
        match r.tool_calls {
            None => m.tool_calls@.len() == 0,
            Some(c) => m.tool_calls@.len() > 0 && calls_view(c@) == calls_view(m.tool_calls@),
        },
        crate::llm::opt_view(r.reasoning_content) == (if m.role == Role::Assistant {
            crate::llm::opt_view(m.thinking)
        } else {
            None
        }),
        !r.has_images,
{
    let mut msg = Message::text(m.role, context_content);
    msg.name = clone_opt_string(&m.tool_call_id);
    msg.tool_calls = if m.tool_calls.len() == 0 {
        None
    } else {
        Some(duplicate_calls(&m.tool_calls))
    };
    if m.role == Role::Assistant {
        msg.reasoning_content = clone_opt_string(&m.thinking);
    }
    msg
}

} // verus!
