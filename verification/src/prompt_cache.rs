//! Prompt-cache stability diagnostics: a fingerprint of each model request
//! and the differences between consecutive requests that explain a drop in
//! the provider's cache reads.

use std::hash::{Hash, Hasher};

use vstd::prelude::*;

use crate::llm::{
    calls_view, messages_view, Message, MessageView, ProviderType, Role, ToolCallView,
    ToolDefinition, Usage,
};
use crate::text::{
    chars_of, decimal, decimal_string, join_chars, join_with, json_string_literal, json_value_string,
    string_of, vec_views,
};
use crate::loop_guard::{canonical_json_text, json_round_trip};

verus! {

pub const PREFIX_WINDOW_COUNT: usize = 3;

/// Token windows over which serialized request prefixes are hashed.
pub open spec fn prefix_window(i: int) -> u32 {
    if i == 0 {
        1_024
    } else if i == 1 {
        4_096
    } else {
        16_384
    }
}

fn prefix_window_exec(i: usize) -> (w: u32)
    requires
        i < PREFIX_WINDOW_COUNT,
    ensures
        w == prefix_window(i as int),
{
    if i == 0 {
        1_024
    } else if i == 1 {
        4_096
    } else {
        16_384
    }
}

/// The hash `std::collections::hash_map::DefaultHasher` gives a string.
pub uninterp spec fn text_hash(text: Seq<char>) -> u64;

/// Hashes text with `DefaultHasher::new()` (fixed keys, so equal texts hash
/// equally in every process of one build). Which value comes out is named,
/// not stated.
#[verifier::external_body]
fn hash_text(value: &str) -> (h: u64)
    ensures
        h == text_hash(value@),
{
    let mut hasher = std::collections::hash_map::DefaultHasher::new();
    value.hash(&mut hasher);
    hasher.finish()
}

/// Fingerprint of one model request.
#[derive(Debug, Clone, PartialEq, Eq)]
pub struct PromptCacheSnapshot {
    pub provider_type: Option<ProviderType>,
    pub model: String,
    pub stable_system_hash: u64,
    pub tool_schema_hash: u64,
    pub tool_count: usize,
    pub tool_names: Vec<String>,
    pub message_hashes: Vec<u64>,
    pub prefix_hashes: [u64; 3],
    pub system_message_positions: Vec<usize>,
    pub system_message_hashes: Vec<u64>,
    pub dynamic_system_tokens: u32,
    pub tool_result_tokens: u32,
}

pub open spec fn role_label(role: Role) -> Seq<char> {
    match role {
        Role::System => "system"@,
        Role::User => "user"@,
        Role::Assistant => "assistant"@,
        Role::Tool => "tool"@,
    }
}

pub(crate) fn role_label_str(role: Role) -> (s: &'static str)
    ensures
        s@ == role_label(role),
{
    match role {
        Role::System => "system",
        Role::User => "user",
        Role::Assistant => "assistant",
        Role::Tool => "tool",
    }
}

pub open spec fn or_empty(o: Option<Seq<char>>) -> Seq<char> {
    match o {
        Some(s) => s,
        None => Seq::empty(),
    }
}

/// A JSON string literal, or `null`.
pub open spec fn json_opt_string(o: Option<Seq<char>>) -> Seq<char> {
    match o {
        Some(s) => json_string_literal(s),
        None => "null"@,
    }
}

/// One tool call as compact JSON, in the shape serde_json gives its derived
/// serialization: `{"id":…,"name":…,"arguments":…,"thought_signature":…}`.
pub open spec fn call_text(c: ToolCallView) -> Seq<char> {
    "{\"id\":"@ + json_string_literal(c.id) + ",\"name\":"@ + json_string_literal(c.name)
        + ",\"arguments\":"@ + json_string_literal(c.arguments) + ",\"thought_signature\":"@
        + json_opt_string(c.thought_signature) + "}"@
}

/// Text of a message's tool calls inside its fingerprint.
pub open spec fn calls_text(calls: Option<Seq<ToolCallView>>) -> Seq<char> {
    match calls {
        None => "null"@,
        Some(cs) => "["@ + join_with(cs.map_values(|c: ToolCallView| call_text(c)), ","@) + "]"@,
    }
}

/// The text a message is fingerprinted by.
pub open spec fn message_text(m: MessageView) -> Seq<char> {
    "role="@ + role_label(m.role) + ";name="@ + or_empty(m.name) + ";text="@ + m.content
        + ";tool_calls="@ + calls_text(m.tool_calls) + ";reasoning="@ + or_empty(
        m.reasoning_content,
    )
}

fn append_opt(out: &mut String, o: &Option<String>)
    ensures
        final(out)@ == old(out)@ + or_empty(crate::llm::opt_view(*o)),
{
    match o {
        Some(s) => out.append(s.as_str()),
        None => {
            assert(old(out)@ + Seq::<char>::empty() =~= old(out)@);
        },
    }
}

fn calls_text_exec(calls: &Option<Vec<crate::llm::ToolCallRequest>>) -> (s: String)
    ensures
        s@ == calls_text(
            match calls {
                Some(cs) => Some(calls_view(cs@)),
                None => None,
            },
        ),
{
    match calls {
        None => String::from_str("null"),
        Some(cs) => {
            let ghost views = calls_view(cs@);
            let mut parts: Vec<Vec<char>> = Vec::new();
            let mut i: usize = 0;
            while i < cs.len()
                invariant
                    i <= cs.len(),
                    views == calls_view(cs@),
                    vec_views(parts@) == views.take(i as int).map_values(
                        |c: ToolCallView| call_text(c),
                    ),
                decreases cs.len() - i,
            {
                let c = &cs[i];
                let mut t = String::new();
                t.append("{\"id\":");
                t.append(json_value_string(c.id.as_str()).as_str());
                t.append(",\"name\":");
                t.append(json_value_string(c.name.as_str()).as_str());
                t.append(",\"arguments\":");
                t.append(json_value_string(c.arguments.as_str()).as_str());
                t.append(",\"thought_signature\":");
                match &c.thought_signature {
                    Some(sig) => t.append(json_value_string(sig.as_str()).as_str()),
                    None => t.append("null"),
                }
                t.append("}");
                let ghost before = vec_views(parts@);
                parts.push(chars_of(t.as_str()));
                proof {
                    assert(views[i as int] == c@);
                    assert(vec_views(parts@) =~= before.push(call_text(views[i as int])));
                    assert(views.take(i + 1).map_values(|c: ToolCallView| call_text(c))
                        =~= views.take(i as int).map_values(|c: ToolCallView| call_text(c)).push(
                        call_text(views[i as int]),
                    ));
                }
                i = i + 1;
            }
            assert(views.take(cs.len() as int) =~= views);
            let sep = chars_of(",");
            let joined = join_chars(&parts, sep.as_slice());
            let mut s = String::new();
            s.append("[");
            let body = string_of(joined.as_slice());
            s.append(body.as_str());
            s.append("]");
            s
        },
    }
}

/// The text a message is fingerprinted by.
pub fn serialized_message_for_hash(message: &Message) -> (s: String)
    ensures
        s@ == message_text(message@),
{
    let mut s = String::new();
    s.append("role=");
    s.append(role_label_str(message.role));
    s.append(";name=");
    append_opt(&mut s, &message.name);
    s.append(";text=");
    s.append(message.content.as_str());
    s.append(";tool_calls=");
    let calls = calls_text_exec(&message.tool_calls);
    s.append(calls.as_str());
    s.append(";reasoning=");
    append_opt(&mut s, &message.reasoning_content);
    s
}

/// The text of the first system message, or nothing.
pub open spec fn stable_system_text(ms: Seq<MessageView>) -> Seq<char>
    decreases ms.len(),
{
    if ms.len() == 0 {
        Seq::empty()
    } else if ms[0].role == Role::System {
        ms[0].content
    } else {
        stable_system_text(ms.drop_first())
    }
}

/// A tool's parameter schema as compact JSON with keys in order (its text
/// as it stands when it does not parse).
pub open spec fn schema_json(parameters: Seq<char>) -> Seq<char> {
    match json_round_trip(parameters) {
        Some(t) => t,
        None => parameters,
    }
}

/// One tool definition as compact JSON, in the shape serde_json gives its
/// derived serialization: `{"name":…,"description":…,"parameters":…}`.
pub open spec fn tool_text(t: ToolDefinition) -> Seq<char> {
    "{\"name\":"@ + json_string_literal(t.name@) + ",\"description\":"@ + json_string_literal(
        t.description@,
    ) + ",\"parameters\":"@ + schema_json(t.parameters@) + "}"@
}

/// The tool definitions as a compact JSON array: the text the tool schema
/// is fingerprinted by.
pub open spec fn tools_text(tools: Seq<ToolDefinition>) -> Seq<char> {
    "["@ + join_with(tools.map_values(|t: ToolDefinition| tool_text(t)), ","@) + "]"@
}

/// Token-budgeted prefix of the serialized request, from message `i` on with
/// `used` tokens already taken: whole messages while they fit, then the
/// first four characters per remaining token of the message that does not.
pub open spec fn prefix_text_from(ms: Seq<MessageView>, tokens: Seq<u32>, budget: u32, i: int, used: u32) -> Seq<char>
    decreases ms.len() - i,
{
    if i < 0 || i >= ms.len() || used >= budget {
        Seq::empty()
    } else {
        let t = tokens[i];
        let sum = if used as int + t as int > u32::MAX {
            u32::MAX as int
        } else {
            used + t
        };
        if sum <= budget {
            message_text(ms[i]) + prefix_text_from(ms, tokens, budget, i + 1, sum as u32)
        } else {
            let remaining = (budget - used) as nat;
            let keep = if remaining * 4 > u32::MAX {
                u32::MAX as nat
            } else {
                remaining * 4
            };
            let text = message_text(ms[i]);
            text.take(
                if keep < text.len() {
                    keep as int
                } else {
                    text.len() as int
                },
            )
        }
    }
}

/// Positions of the system messages.
pub open spec fn system_positions_from(ms: Seq<MessageView>, i: int) -> Seq<int>
    decreases ms.len() - i,
{
    if i < 0 || i >= ms.len() {
        Seq::empty()
    } else if ms[i].role == Role::System {
        seq![i] + system_positions_from(ms, i + 1)
    } else {
        system_positions_from(ms, i + 1)
    }
}

/// Tokens of the messages from `i` on that satisfy `role_matches`, the first
/// message excluded when `skip_first` is set.
pub open spec fn role_tokens_from(ms: Seq<MessageView>, tokens: Seq<u32>, role: Role, skip_first: bool, i: int) -> nat
    decreases ms.len() - i,
{
    if i < 0 || i >= ms.len() {
        0
    } else {
        (if ms[i].role == role && !(skip_first && i == 0) {
            tokens[i] as nat
        } else {
            0
        }) + role_tokens_from(ms, tokens, role, skip_first, i + 1)
    }
}

pub open spec fn all_tokens(tokens: Seq<u32>) -> nat
    decreases tokens.len(),
{
    if tokens.len() == 0 {
        0
    } else {
        all_tokens(tokens.drop_last()) + (tokens.last() as nat)
    }
}

/// The fingerprint of a request.
pub open spec fn snapshot_matches(
    s: PromptCacheSnapshot,
    provider_type: Option<ProviderType>,
    model: Seq<char>,
    ms: Seq<MessageView>,
    tokens: Seq<u32>,
    tools: Seq<ToolDefinition>,
) -> bool {
    let positions = system_positions_from(ms, 0);
    &&& s.provider_type == provider_type
    &&& s.model@ == model
    &&& s.stable_system_hash == text_hash(stable_system_text(ms))
    &&& s.tool_schema_hash == text_hash(tools_text(tools))
    &&& s.tool_count == tools.len()
    &&& s.tool_names@.map_values(|n: String| n@) == tools.map_values(|t: ToolDefinition| t.name@)
    &&& s.message_hashes@ == ms.map_values(|m: MessageView| text_hash(message_text(m)))
    &&& forall|w: int|
        0 <= w < PREFIX_WINDOW_COUNT ==> #[trigger] s.prefix_hashes@[w] == text_hash(
            prefix_text_from(ms, tokens, prefix_window(w), 0, 0),
        )
    &&& s.system_message_positions@.map_values(|p: usize| p as int) == positions
    &&& s.system_message_hashes@ == positions.map_values(|p: int| text_hash(message_text(ms[p])))
    &&& s.dynamic_system_tokens == role_tokens_from(ms, tokens, Role::System, true, 0)
    &&& s.tool_result_tokens == role_tokens_from(ms, tokens, Role::Tool, false, 0)
}

fn stable_system_text_exec(messages: &[Message]) -> (s: String)
    ensures
        s@ == stable_system_text(messages_view(messages@)),
{
    let ghost ms = messages_view(messages@);
    let mut i: usize = 0;
    assert(ms.skip(0) =~= ms);
    while i < messages.len()
        invariant
            i <= messages.len(),
            ms == messages_view(messages@),
            stable_system_text(ms) == stable_system_text(ms.skip(i as int)),
        decreases messages.len() - i,
    {
        assert(ms.skip(i as int)[0] == messages@[i as int]@);
        assert(ms.skip(i as int).drop_first() =~= ms.skip(i + 1));
        if messages[i].role == Role::System {
            return messages[i].content.clone();
        }
        i = i + 1;
    }
    assert(ms.skip(i as int) =~= Seq::<MessageView>::empty());
    String::new()
}

fn tools_text_exec(tools: &[ToolDefinition]) -> (s: String)
    ensures
        s@ == tools_text(tools@),
{
    let mut parts: Vec<Vec<char>> = Vec::new();
    let mut i: usize = 0;
    while i < tools.len()
        invariant
            i <= tools.len(),
            vec_views(parts@) == tools@.take(i as int).map_values(|t: ToolDefinition| tool_text(t)),
        decreases tools.len() - i,
    {
        let t = &tools[i];
        let mut text = String::new();
        text.append("{\"name\":");
        text.append(json_value_string(t.name.as_str()).as_str());
        text.append(",\"description\":");
        text.append(json_value_string(t.description.as_str()).as_str());
        text.append(",\"parameters\":");
        match canonical_json_text(t.parameters.as_str()) {
            Some(schema) => text.append(schema.as_str()),
            None => text.append(t.parameters.as_str()),
        }
        text.append("}");
        let ghost before = vec_views(parts@);
        parts.push(chars_of(text.as_str()));
        proof {
            assert(vec_views(parts@) =~= before.push(tool_text(tools@[i as int])));
            assert(tools@.take(i + 1).map_values(|t: ToolDefinition| tool_text(t))
                =~= tools@.take(i as int).map_values(|t: ToolDefinition| tool_text(t)).push(
                tool_text(tools@[i as int]),
            ));
        }
        i = i + 1;
    }
    assert(tools@.take(tools.len() as int) =~= tools@);
    let sep = chars_of(",");
    let joined = join_chars(&parts, sep.as_slice());
    let mut s = String::new();
    s.append("[");
    let body = string_of(joined.as_slice());
    s.append(body.as_str());
    s.append("]");
    s
}

proof fn lemma_prefix_text_step(ms: Seq<MessageView>, tokens: Seq<u32>, budget: u32, i: int, used: u32)
    requires
        0 <= i < ms.len(),
        used < budget,
    ensures
        prefix_text_from(ms, tokens, budget, i, used) == ({
            let t = tokens[i];
            let sum = if used as int + t as int > u32::MAX {
                u32::MAX as int
            } else {
                used + t
            };
            if sum <= budget {
                message_text(ms[i]) + prefix_text_from(ms, tokens, budget, i + 1, sum as u32)
            } else {
                let remaining = (budget - used) as nat;
                let keep = if remaining * 4 > u32::MAX {
                    u32::MAX as nat
                } else {
                    remaining * 4
                };
                let text = message_text(ms[i]);
                text.take(
                    if keep < text.len() {
                        keep as int
                    } else {
                        text.len() as int
                    },
                )
            }
        }),
{
}

/// Hash of the request's serialized prefix within a token budget.
fn prefix_hash_for_token_budget(messages: &[Message], message_tokens: &[u32], token_budget: u32) -> (h:
    u64)
    requires
        message_tokens.len() == messages.len(),
    ensures
        h == text_hash(
            prefix_text_from(messages_view(messages@), message_tokens@, token_budget, 0, 0),
        ),
{
    let ghost ms = messages_view(messages@);
    let mut used: u32 = 0;
    let mut serialized: Vec<char> = Vec::new();
    let mut i: usize = 0;
    while i < messages.len()
        invariant
            i <= messages.len(),
            message_tokens.len() == messages.len(),
            ms == messages_view(messages@),
            serialized@ + prefix_text_from(ms, message_tokens@, token_budget, i as int, used)
                == prefix_text_from(ms, message_tokens@, token_budget, 0, 0),
        decreases messages.len() - i,
    {
        if used >= token_budget {
            proof {
                assert(prefix_text_from(ms, message_tokens@, token_budget, i as int, used)
                    =~= Seq::<char>::empty());
            }
            assert(serialized@ + prefix_text_from(
                ms,
                message_tokens@,
                token_budget,
                messages.len() as int,
                used,
            ) =~= prefix_text_from(ms, message_tokens@, token_budget, 0, 0));
            i = messages.len();
        } else {
            proof {
                lemma_prefix_text_step(ms, message_tokens@, token_budget, i as int, used);
                assert(ms[i as int] == messages@[i as int]@);
            }
            let t = message_tokens[i];
            let text = serialized_message_for_hash(&messages[i]);
            let text_chars = chars_of(text.as_str());
            let sum = used.saturating_add(t);
            if sum <= token_budget {
                let ghost before = serialized@;
                crate::text::extend_chars(&mut serialized, text_chars.as_slice());
                assert(serialized@ + prefix_text_from(
                    ms,
                    message_tokens@,
                    token_budget,
                    i + 1,
                    sum,
                ) =~= before + prefix_text_from(ms, message_tokens@, token_budget, i as int, used));
                used = sum;
                i = i + 1;
            } else {
                let remaining = token_budget - used;
                let keep: usize = if remaining > u32::MAX / 4 {
                    u32::MAX as usize
                } else {
                    (remaining * 4) as usize
                };
                let n = if keep < text_chars.len() {
                    keep
                } else {
                    text_chars.len()
                };
                let head = crate::text::slice_chars(text_chars.as_slice(), 0, n);
                let ghost before = serialized@;
                crate::text::extend_chars(&mut serialized, head.as_slice());
                assert(text_chars@.subrange(0, n as int) =~= text_chars@.take(n as int));
                assert(serialized@ + prefix_text_from(
                    ms,
                    message_tokens@,
                    token_budget,
                    messages.len() as int,
                    used,
                ) =~= before + prefix_text_from(ms, message_tokens@, token_budget, i as int, used));
                i = messages.len();
            }
        }
    }
    assert(prefix_text_from(ms, message_tokens@, token_budget, i as int, used) =~= Seq::<
        char,
    >::empty());
    let text = string_of(serialized.as_slice());
    hash_text(text.as_str())
}

proof fn lemma_role_tokens_bound(ms: Seq<MessageView>, tokens: Seq<u32>, role: Role, skip_first: bool, i: int)
    requires
        0 <= i <= ms.len(),
        tokens.len() == ms.len(),
    ensures
        role_tokens_from(ms, tokens, role, skip_first, i) <= all_tokens(tokens.skip(i)),
    decreases ms.len() - i,
{
    if i < ms.len() {
        lemma_role_tokens_bound(ms, tokens, role, skip_first, i + 1);
        lemma_all_tokens_first(tokens.skip(i));
        assert(tokens.skip(i).drop_first() =~= tokens.skip(i + 1));
    } else {
        assert(tokens.skip(i) =~= Seq::<u32>::empty());
    }
}

proof fn lemma_all_tokens_first(t: Seq<u32>)
    requires
        t.len() > 0,
    ensures
        all_tokens(t) == t[0] + all_tokens(t.drop_first()),
    decreases t.len(),
{
    if t.len() > 1 {
        lemma_all_tokens_first(t.drop_last());
        assert(t.drop_last().drop_first() =~= t.drop_first().drop_last());
    } else {
        assert(t.drop_first() =~= Seq::<u32>::empty());
        assert(t.drop_last() =~= Seq::<u32>::empty());
    }
}

fn role_tokens(messages: &[Message], message_tokens: &[u32], role: Role, skip_first: bool) -> (n: u32)
    requires
        message_tokens.len() == messages.len(),
        all_tokens(message_tokens@) <= u32::MAX,
    ensures
        n == role_tokens_from(messages_view(messages@), message_tokens@, role, skip_first, 0),
{
    let ghost ms = messages_view(messages@);
    let mut n: u32 = 0;
    let mut k: usize = messages.len();
    proof {
        lemma_role_tokens_bound(ms, message_tokens@, role, skip_first, 0);
        assert(message_tokens@.skip(0) =~= message_tokens@);
        lemma_role_split(ms, message_tokens@, role, skip_first, messages.len() as int);
    }
    while k > 0
        invariant
            k <= messages.len(),
            message_tokens.len() == messages.len(),
            ms == messages_view(messages@),
            role_tokens_from(ms, message_tokens@, role, skip_first, 0) <= u32::MAX,
            n == role_tokens_from(ms, message_tokens@, role, skip_first, k as int),
            role_tokens_from(ms, message_tokens@, role, skip_first, 0) == role_tokens_from(
                ms,
                message_tokens@,
                role,
                skip_first,
                k as int,
            ) + role_prefix_tokens(ms, message_tokens@, role, skip_first, k as int),
        decreases k,
    {
        let i = k - 1;
        assert(ms[i as int] == messages@[i as int]@);
        proof {
            lemma_role_prefix_step(ms, message_tokens@, role, skip_first, k as int);
        }
        if messages[i].role == role && !(skip_first && i == 0) {
            n = n + message_tokens[i];
        }
        k = i;
    }
    n
}

/// The matching tokens among the first `k` messages.
pub open spec fn role_prefix_tokens(ms: Seq<MessageView>, tokens: Seq<u32>, role: Role, skip_first: bool, k: int) -> nat
    decreases k,
{
    if k <= 0 {
        0
    } else {
        role_prefix_tokens(ms, tokens, role, skip_first, k - 1) + (if ms[k - 1].role == role
            && !(skip_first && k - 1 == 0) {
            tokens[k - 1] as nat
        } else {
            0
        })
    }
}

proof fn lemma_role_prefix_step(ms: Seq<MessageView>, tokens: Seq<u32>, role: Role, skip_first: bool, k: int)
    requires
        0 < k <= ms.len(),
    ensures
        role_tokens_from(ms, tokens, role, skip_first, k - 1) == (if ms[k - 1].role == role
            && !(skip_first && k - 1 == 0) {
            tokens[k - 1] as nat
        } else {
            0
        }) + role_tokens_from(ms, tokens, role, skip_first, k),
{
}

proof fn lemma_role_split(ms: Seq<MessageView>, tokens: Seq<u32>, role: Role, skip_first: bool, k: int)
    requires
        0 <= k <= ms.len(),
    ensures
        role_tokens_from(ms, tokens, role, skip_first, 0) == role_tokens_from(
            ms,
            tokens,
            role,
            skip_first,
            k,
        ) + role_prefix_tokens(ms, tokens, role, skip_first, k),
    decreases k,
{
    if k > 0 {
        lemma_role_split(ms, tokens, role, skip_first, k - 1);
    }
}

/// The fingerprint of a request; `message_tokens[i]` is the model's token
/// estimate for `messages[i]`.
pub fn snapshot_for(
    provider_type: Option<ProviderType>,
    model: &str,
    messages: &[Message],
    message_tokens: &[u32],
    tools: &[ToolDefinition],
) -> (s: PromptCacheSnapshot)
    requires
        message_tokens.len() == messages.len(),
        all_tokens(message_tokens@) <= u32::MAX,
    ensures
        snapshot_matches(s, provider_type, model@, messages_view(messages@), message_tokens@, tools@),
{
    let ghost ms = messages_view(messages@);
    let stable = stable_system_text_exec(messages);
    let stable_system_hash = hash_text(stable.as_str());
    let schema = tools_text_exec(tools);
    let tool_schema_hash = hash_text(schema.as_str());
    let mut tool_names: Vec<String> = Vec::new();
    let mut j: usize = 0;
    while j < tools.len()
        invariant
            j <= tools.len(),
            tool_names@.map_values(|n: String| n@) == tools@.take(j as int).map_values(
                |t: ToolDefinition| t.name@,
            ),
        decreases tools.len() - j,
    {
        let ghost before = tool_names@.map_values(|n: String| n@);
        let name = tools[j].name.clone();
        assert(name@ == tools@[j as int].name@);
        tool_names.push(name);
        assert(tool_names@.map_values(|n: String| n@) =~= before.push(name@));
        assert(tools@.take(j + 1).map_values(|t: ToolDefinition| t.name@) =~= tools@.take(
            j as int,
        ).map_values(|t: ToolDefinition| t.name@).push(tools@[j as int].name@));
        j = j + 1;
    }
    assert(tools@.take(tools.len() as int) =~= tools@);
    let mut message_hashes: Vec<u64> = Vec::new();
    let mut positions: Vec<usize> = Vec::new();
    let mut system_hashes: Vec<u64> = Vec::new();
    let mut i: usize = 0;
    while i < messages.len()
        invariant
            i <= messages.len(),
            ms == messages_view(messages@),
            message_hashes@ == ms.take(i as int).map_values(
                |m: MessageView| text_hash(message_text(m)),
            ),
            positions@.map_values(|p: usize| p as int) + system_positions_from(ms, i as int)
                == system_positions_from(ms, 0),
            system_hashes@ == positions@.map_values(|p: usize| p as int).map_values(
                |p: int| text_hash(message_text(ms[p])),
            ),
        decreases messages.len() - i,
    {
        let text = serialized_message_for_hash(&messages[i]);
        let h = hash_text(text.as_str());
        assert(ms[i as int] == messages@[i as int]@);
        message_hashes.push(h);
        assert(message_hashes@ =~= ms.take(i + 1).map_values(
            |m: MessageView| text_hash(message_text(m)),
        ));
        if messages[i].role == Role::System {
            let ghost before = positions@;
            positions.push(i);
            system_hashes.push(h);
            assert(positions@.map_values(|p: usize| p as int) =~= before.map_values(
                |p: usize| p as int,
            ).push(i as int));
            assert(positions@.map_values(|p: usize| p as int) + system_positions_from(
                ms,
                i + 1,
            ) =~= before.map_values(|p: usize| p as int) + system_positions_from(ms, i as int));
            assert(system_hashes@ =~= positions@.map_values(|p: usize| p as int).map_values(
                |p: int| text_hash(message_text(ms[p])),
            ));
        }
        i = i + 1;
    }
    assert(ms.take(messages.len() as int) =~= ms);
    assert(system_positions_from(ms, messages.len() as int) =~= Seq::<int>::empty());
    assert(positions@.map_values(|p: usize| p as int) =~= system_positions_from(ms, 0));
    let p0 = prefix_hash_for_token_budget(messages, message_tokens, prefix_window_exec(0));
    let p1 = prefix_hash_for_token_budget(messages, message_tokens, prefix_window_exec(1));
    let p2 = prefix_hash_for_token_budget(messages, message_tokens, prefix_window_exec(2));
    let prefix_hashes: [u64; 3] = [p0, p1, p2];
    let dynamic_system_tokens = role_tokens(messages, message_tokens, Role::System, true);
    let tool_result_tokens = role_tokens(messages, message_tokens, Role::Tool, false);
    let s = PromptCacheSnapshot {
        provider_type,
        model: String::from_str(model),
        stable_system_hash,
        tool_schema_hash,
        tool_count: tools.len(),
        tool_names,
        message_hashes,
        prefix_hashes,
        system_message_positions: positions,
        system_message_hashes: system_hashes,
        dynamic_system_tokens,
        tool_result_tokens,
    };
    proof {
        assert forall|w: int| 0 <= w < PREFIX_WINDOW_COUNT implies #[trigger] s.prefix_hashes@[w]
            == text_hash(prefix_text_from(ms, message_tokens@, prefix_window(w), 0, 0)) by {
            if w == 0 {
            } else if w == 1 {
            } else {
            }
        }
    }
    s
}

/// Index of the first position, from `i` on, where the two hash lists
/// differ (one of them may have ended there).
pub open spec fn first_diff_from(p: Seq<u64>, n: Seq<u64>, i: int) -> Option<int>
    decreases (if p.len() >= n.len() { p.len() } else { n.len() }) - i,
{
    let max_len = if p.len() >= n.len() {
        p.len()
    } else {
        n.len()
    };
    if i < 0 || i >= max_len {
        None
    } else if i >= p.len() || i >= n.len() || p[i] != n[i] {
        Some(i)
    } else {
        first_diff_from(p, n, i + 1)
    }
}

pub fn first_changed_message_index(previous: &[u64], next: &[u64]) -> (r: Option<usize>)
    ensures
        match r {
            Some(i) => first_diff_from(previous@, next@, 0) == Some(i as int),
            None => first_diff_from(previous@, next@, 0) is None,
        },
{
    let max_len = if previous.len() >= next.len() {
        previous.len()
    } else {
        next.len()
    };
    let mut i: usize = 0;
    while i < max_len
        invariant
            i <= max_len,
            max_len == if previous.len() >= next.len() {
                previous.len()
            } else {
                next.len()
            },
            first_diff_from(previous@, next@, 0) == first_diff_from(previous@, next@, i as int),
        decreases max_len - i,
    {
        if i >= previous.len() || i >= next.len() || previous[i] != next[i] {
            return Some(i);
        }
        i = i + 1;
    }
    None
}

pub open spec fn provider_name(p: ProviderType) -> Seq<char> {
    match p {
        ProviderType::OpenAi => "OpenAi"@,
        ProviderType::AzureOpenAi => "AzureOpenAi"@,
        ProviderType::Anthropic => "Anthropic"@,
        ProviderType::Gemini => "Gemini"@,
        ProviderType::Qwen => "Qwen"@,
        ProviderType::OpenRouter => "OpenRouter"@,
        ProviderType::DeepSeek => "DeepSeek"@,
        ProviderType::Moonshot => "Moonshot"@,
        ProviderType::AlibabaModelStudio => "AlibabaModelStudio"@,
        ProviderType::Ollama => "Ollama"@,
        ProviderType::LmStudio => "LmStudio"@,
        ProviderType::Custom => "Custom"@,
    }
}

fn provider_name_str(p: ProviderType) -> (s: &'static str)
    ensures
        s@ == provider_name(p),
{
    match p {
        ProviderType::OpenAi => "OpenAi",
        ProviderType::AzureOpenAi => "AzureOpenAi",
        ProviderType::Anthropic => "Anthropic",
        ProviderType::Gemini => "Gemini",
        ProviderType::Qwen => "Qwen",
        ProviderType::OpenRouter => "OpenRouter",
        ProviderType::DeepSeek => "DeepSeek",
        ProviderType::Moonshot => "Moonshot",
        ProviderType::AlibabaModelStudio => "AlibabaModelStudio",
        ProviderType::Ollama => "Ollama",
        ProviderType::LmStudio => "LmStudio",
        ProviderType::Custom => "Custom",
    }
}

/// Debug text of an optional provider type.
pub open spec fn provider_debug(p: Option<ProviderType>) -> Seq<char> {
    match p {
        Some(t) => "Some("@ + provider_name(t) + ")"@,
        None => "None"@,
    }
}

fn provider_debug_string(p: Option<ProviderType>) -> (s: String)
    ensures
        s@ == provider_debug(p),
{
    match p {
        Some(t) => {
            let mut s = String::new();
            s.append("Some(");
            s.append(provider_name_str(t));
            s.append(")");
            s
        },
        None => String::from_str("None"),
    }
}

/// Debug text of a list of positions, `[1, 2]`.
pub open spec fn positions_debug(v: Seq<usize>) -> Seq<char> {
    "["@ + join_with(v.map_values(|p: usize| decimal(p as nat)), ", "@) + "]"@
}

fn positions_debug_string(v: &Vec<usize>) -> (s: String)
    ensures
        s@ == positions_debug(v@),
{
    let mut parts: Vec<Vec<char>> = Vec::new();
    let mut i: usize = 0;
    while i < v.len()
        invariant
            i <= v.len(),
            vec_views(parts@) == v@.take(i as int).map_values(|p: usize| decimal(p as nat)),
        decreases v.len() - i,
    {
        let ghost before = vec_views(parts@);
        let d = crate::text::decimal_chars(v[i] as u64);
        parts.push(d);
        assert(vec_views(parts@) =~= before.push(decimal(v@[i as int] as nat)));
        assert(v@.take(i + 1).map_values(|p: usize| decimal(p as nat)) =~= v@.take(
            i as int,
        ).map_values(|p: usize| decimal(p as nat)).push(decimal(v@[i as int] as nat)));
        i = i + 1;
    }
    assert(v@.take(v.len() as int) =~= v@);
    let sep = chars_of(", ");
    let joined = join_chars(&parts, sep.as_slice());
    let mut s = String::new();
    s.append("[");
    let body = string_of(joined.as_slice());
    s.append(body.as_str());
    s.append("]");
    s
}

/// Names of the token windows whose prefix hash differs.
pub open spec fn changed_windows(p: Seq<u64>, n: Seq<u64>, k: int) -> Seq<Seq<char>>
    decreases k,
{
    if k <= 0 {
        Seq::empty()
    } else {
        let prev = changed_windows(p, n, k - 1);
        if p[k - 1] != n[k - 1] {
            prev.push(decimal(prefix_window(k - 1) as nat) + "t"@)
        } else {
            prev
        }
    }
}

pub open spec fn one_if(cond: bool, line: Seq<char>) -> Seq<Seq<char>> {
    if cond {
        seq![line]
    } else {
        Seq::empty()
    }
}

pub open spec fn provider_change(p: PromptCacheSnapshot, n: PromptCacheSnapshot) -> Seq<Seq<char>> {
    one_if(
        p.provider_type != n.provider_type,
        "provider type changed ("@ + provider_debug(p.provider_type) + " -> "@ + provider_debug(
            n.provider_type,
        ) + ")"@,
    )
}

pub open spec fn model_change(p: PromptCacheSnapshot, n: PromptCacheSnapshot) -> Seq<Seq<char>> {
    one_if(p.model@ != n.model@, "model changed ("@ + p.model@ + " -> "@ + n.model@ + ")"@)
}

pub open spec fn stable_system_change(p: PromptCacheSnapshot, n: PromptCacheSnapshot) -> Seq<Seq<char>> {
    one_if(p.stable_system_hash != n.stable_system_hash, "stable system prompt changed"@)
}

pub open spec fn tool_schema_change(p: PromptCacheSnapshot, n: PromptCacheSnapshot) -> Seq<Seq<char>> {
    if p.tool_schema_hash != n.tool_schema_hash {
        if p.tool_count == n.tool_count {
            seq!["tool schemas changed with same count"@]
        } else {
            seq![
                "tool count changed ("@ + decimal(p.tool_count as nat) + " -> "@ + decimal(
                    n.tool_count as nat,
                ) + ")"@,
            ]
        }
    } else {
        Seq::empty()
    }
}

pub open spec fn message_change(p: PromptCacheSnapshot, n: PromptCacheSnapshot) -> Seq<Seq<char>> {
    match first_diff_from(p.message_hashes@, n.message_hashes@, 0) {
        Some(i) => seq!["first changed message index "@ + decimal(i as nat)],
        None => Seq::empty(),
    }
}

pub open spec fn prefix_change(p: PromptCacheSnapshot, n: PromptCacheSnapshot) -> Seq<Seq<char>> {
    one_if(
        p.prefix_hashes@ != n.prefix_hashes@,
        "serialized prefix hash changed ("@ + join_with(
            changed_windows(p.prefix_hashes@, n.prefix_hashes@, 3),
            ", "@,
        ) + ")"@,
    )
}

pub open spec fn positions_change(p: PromptCacheSnapshot, n: PromptCacheSnapshot) -> Seq<Seq<char>> {
    one_if(
        p.system_message_positions@ != n.system_message_positions@,
        "system message positions changed ("@ + positions_debug(p.system_message_positions@)
            + " -> "@ + positions_debug(n.system_message_positions@) + ")"@,
    )
}

pub open spec fn system_hashes_change(p: PromptCacheSnapshot, n: PromptCacheSnapshot) -> Seq<Seq<char>> {
    one_if(p.system_message_hashes@ != n.system_message_hashes@, "system message hashes changed"@)
}

pub open spec fn count_change(label: Seq<char>, a: u32, b: u32) -> Seq<Seq<char>> {
    one_if(a != b, label + " changed ("@ + decimal(a as nat) + " -> "@ + decimal(b as nat) + ")"@)
}

/// What changed between two request fingerprints, in a fixed order.
pub open spec fn snapshot_changes(p: PromptCacheSnapshot, n: PromptCacheSnapshot) -> Seq<Seq<char>> {
    provider_change(p, n) + model_change(p, n) + stable_system_change(p, n) + tool_schema_change(
        p,
        n,
    ) + message_change(p, n) + prefix_change(p, n) + positions_change(p, n) + system_hashes_change(
        p,
        n,
    ) + count_change("dynamic system tokens"@, p.dynamic_system_tokens, n.dynamic_system_tokens)
        + count_change("tool result tokens"@, p.tool_result_tokens, n.tool_result_tokens)
}

pub open spec fn lines(v: Seq<String>) -> Seq<Seq<char>> {
    v.map_values(|c: String| c@)
}

fn single(line: String) -> (v: Vec<String>)
    ensures
        lines(v@) == seq![line@],
{
    let mut v: Vec<String> = Vec::new();
    v.push(line);
    assert(lines(v@) =~= seq![line@]);
    v
}

fn append_lines(dst: &mut Vec<String>, src: Vec<String>)
    ensures
        lines(final(dst)@) == lines(old(dst)@) + lines(src@),
{
    let mut src = src;
    let ghost s0 = src@;
    dst.append(&mut src);
    assert(lines(dst@) =~= lines(old(dst)@) + lines(s0));
}

fn u64s_eq(a: &[u64], b: &[u64]) -> (r: bool)
    ensures
        r == (a@ == b@),
{
    if a.len() != b.len() {
        return false;
    }
    let mut i: usize = 0;
    while i < a.len()
        invariant
            a.len() == b.len(),
            i <= a.len(),
            forall|k: int| 0 <= k < i ==> a@[k] == b@[k],
        decreases a.len() - i,
    {
        if a[i] != b[i] {
            return false;
        }
        i = i + 1;
    }
    assert(a@ =~= b@);
    true
}

fn usizes_eq(a: &[usize], b: &[usize]) -> (r: bool)
    ensures
        r == (a@ == b@),
{
    if a.len() != b.len() {
        return false;
    }
    let mut i: usize = 0;
    while i < a.len()
        invariant
            a.len() == b.len(),
            i <= a.len(),
            forall|k: int| 0 <= k < i ==> a@[k] == b@[k],
        decreases a.len() - i,
    {
        if a[i] != b[i] {
            return false;
        }
        i = i + 1;
    }
    assert(a@ =~= b@);
    true
}

fn option_provider_eq(a: Option<ProviderType>, b: Option<ProviderType>) -> (r: bool)
    ensures
        r == (a == b),
{
    match (a, b) {
        (Some(x), Some(y)) => x == y,
        (None, None) => true,
        _ => false,
    }
}

fn provider_change_lines(p: &PromptCacheSnapshot, n: &PromptCacheSnapshot) -> (v: Vec<String>)
    ensures
        lines(v@) == provider_change(*p, *n),
{
    if option_provider_eq(p.provider_type, n.provider_type) {
        return Vec::new();
    }
    let mut line = String::new();
    line.append("provider type changed (");
    let a = provider_debug_string(p.provider_type);
    line.append(a.as_str());
    line.append(" -> ");
    let b = provider_debug_string(n.provider_type);
    line.append(b.as_str());
    line.append(")");
    single(line)
}

fn model_change_lines(p: &PromptCacheSnapshot, n: &PromptCacheSnapshot) -> (v: Vec<String>)
    ensures
        lines(v@) == model_change(*p, *n),
{
    if p.model == n.model {
        return Vec::new();
    }
    let mut line = String::new();
    line.append("model changed (");
    line.append(p.model.as_str());
    line.append(" -> ");
    line.append(n.model.as_str());
    line.append(")");
    single(line)
}

fn tool_schema_change_lines(p: &PromptCacheSnapshot, n: &PromptCacheSnapshot) -> (v: Vec<String>)
    ensures
        lines(v@) == tool_schema_change(*p, *n),
{
    if p.tool_schema_hash == n.tool_schema_hash {
        return Vec::new();
    }
    if p.tool_count == n.tool_count {
        return single(String::from_str("tool schemas changed with same count"));
    }
    let mut line = String::new();
    line.append("tool count changed (");
    let a = decimal_string(p.tool_count as u64);
    line.append(a.as_str());
    line.append(" -> ");
    let b = decimal_string(n.tool_count as u64);
    line.append(b.as_str());
    line.append(")");
    single(line)
}

fn message_change_lines(p: &PromptCacheSnapshot, n: &PromptCacheSnapshot) -> (v: Vec<String>)
    ensures
        lines(v@) == message_change(*p, *n),
{
    match first_changed_message_index(p.message_hashes.as_slice(), n.message_hashes.as_slice()) {
        Some(index) => {
            let mut line = String::new();
            line.append("first changed message index ");
            let d = decimal_string(index as u64);
            line.append(d.as_str());
            single(line)
        },
        None => Vec::new(),
    }
}

fn prefix_change_lines(p: &PromptCacheSnapshot, n: &PromptCacheSnapshot) -> (v: Vec<String>)
    ensures
        lines(v@) == prefix_change(*p, *n),
{
    if u64s_eq(p.prefix_hashes.as_slice(), n.prefix_hashes.as_slice()) {
        return Vec::new();
    }
    let mut windows: Vec<Vec<char>> = Vec::new();
    let mut w: usize = 0;
    while w < PREFIX_WINDOW_COUNT
        invariant
            w <= PREFIX_WINDOW_COUNT,
            vec_views(windows@) == changed_windows(p.prefix_hashes@, n.prefix_hashes@, w as int),
        decreases PREFIX_WINDOW_COUNT - w,
    {
        if p.prefix_hashes[w] != n.prefix_hashes[w] {
            let mut name = crate::text::decimal_chars(prefix_window_exec(w) as u64);
            let ghost digits = name@;
            name.push('t');
            let ghost before = vec_views(windows@);
            proof {
                reveal_strlit("t");
                assert(name@ =~= digits + "t"@);
            }
            windows.push(name);
            assert(vec_views(windows@) =~= before.push(
                decimal(prefix_window(w as int) as nat) + "t"@,
            ));
        }
        w = w + 1;
    }
    let sep = chars_of(", ");
    let joined = join_chars(&windows, sep.as_slice());
    let mut line = String::new();
    line.append("serialized prefix hash changed (");
    let body = string_of(joined.as_slice());
    line.append(body.as_str());
    line.append(")");
    single(line)
}

fn positions_change_lines(p: &PromptCacheSnapshot, n: &PromptCacheSnapshot) -> (v: Vec<String>)
    ensures
        lines(v@) == positions_change(*p, *n),
{
    if usizes_eq(p.system_message_positions.as_slice(), n.system_message_positions.as_slice()) {
        return Vec::new();
    }
    let mut line = String::new();
    line.append("system message positions changed (");
    let a = positions_debug_string(&p.system_message_positions);
    line.append(a.as_str());
    line.append(" -> ");
    let b = positions_debug_string(&n.system_message_positions);
    line.append(b.as_str());
    line.append(")");
    single(line)
}

fn count_change_lines(label: &str, a: u32, b: u32) -> (v: Vec<String>)
    ensures
        lines(v@) == count_change(label@, a, b),
{
    if a == b {
        return Vec::new();
    }
    let mut line = String::new();
    line.append(label);
    line.append(" changed (");
    let x = decimal_string(a as u64);
    line.append(x.as_str());
    line.append(" -> ");
    let y = decimal_string(b as u64);
    line.append(y.as_str());
    line.append(")");
    single(line)
}

/// The differences between two request fingerprints.
pub fn diff_snapshots(previous: &PromptCacheSnapshot, next: &PromptCacheSnapshot) -> (r: Vec<String>)
    ensures
        lines(r@) == snapshot_changes(*previous, *next),
{
    let mut changes = provider_change_lines(previous, next);
    append_lines(&mut changes, model_change_lines(previous, next));
    if previous.stable_system_hash != next.stable_system_hash {
        append_lines(&mut changes, single(String::from_str("stable system prompt changed")));
    } else {
        append_lines(&mut changes, Vec::new());
    }
    append_lines(&mut changes, tool_schema_change_lines(previous, next));
    append_lines(&mut changes, message_change_lines(previous, next));
    append_lines(&mut changes, prefix_change_lines(previous, next));
    append_lines(&mut changes, positions_change_lines(previous, next));
    if !u64s_eq(previous.system_message_hashes.as_slice(), next.system_message_hashes.as_slice()) {
        append_lines(&mut changes, single(String::from_str("system message hashes changed")));
    } else {
        append_lines(&mut changes, Vec::new());
    }
    append_lines(
        &mut changes,
        count_change_lines(
            "dynamic system tokens",
            previous.dynamic_system_tokens,
            next.dynamic_system_tokens,
        ),
    );
    append_lines(
        &mut changes,
        count_change_lines("tool result tokens", previous.tool_result_tokens, next.tool_result_tokens),
    );
    proof {
        assert(lines(Seq::<String>::empty()) =~= Seq::<Seq<char>>::empty());
    }
    changes
}

/// Identical fingerprints report no change.
pub proof fn law_identical_snapshots_have_no_changes(s: PromptCacheSnapshot)
    ensures
        snapshot_changes(s, s).len() == 0,
{
    lemma_first_diff_same(s.message_hashes@, 0);
}

proof fn lemma_first_diff_same(h: Seq<u64>, i: int)
    requires
        0 <= i,
    ensures
        first_diff_from(h, h, i) is None,
    decreases h.len() - i,
{
    if i < h.len() {
        lemma_first_diff_same(h, i + 1);
    }
}

/// The two fingerprints are the same in every field.
pub open spec fn snapshot_eq(a: PromptCacheSnapshot, b: PromptCacheSnapshot) -> bool {
    &&& a.provider_type == b.provider_type
    &&& a.model@ == b.model@
    &&& a.stable_system_hash == b.stable_system_hash
    &&& a.tool_schema_hash == b.tool_schema_hash
    &&& a.tool_count == b.tool_count
    &&& lines(a.tool_names@) == lines(b.tool_names@)
    &&& a.message_hashes@ == b.message_hashes@
    &&& a.prefix_hashes@ == b.prefix_hashes@
    &&& a.system_message_positions@ == b.system_message_positions@
    &&& a.system_message_hashes@ == b.system_message_hashes@
    &&& a.dynamic_system_tokens == b.dynamic_system_tokens
    &&& a.tool_result_tokens == b.tool_result_tokens
}

fn copy_u64s(v: &Vec<u64>) -> (r: Vec<u64>)
    ensures
        r@ == v@,
{
    let mut r: Vec<u64> = Vec::new();
    let mut i: usize = 0;
    while i < v.len()
        invariant
            i <= v.len(),
            r@ == v@.take(i as int),
        decreases v.len() - i,
    {
        r.push(v[i]);
        assert(r@ =~= v@.take(i + 1));
        i = i + 1;
    }
    assert(v@.take(v.len() as int) =~= v@);
    r
}

fn copy_usizes(v: &Vec<usize>) -> (r: Vec<usize>)
    ensures
        r@ == v@,
{
    let mut r: Vec<usize> = Vec::new();
    let mut i: usize = 0;
    while i < v.len()
        invariant
            i <= v.len(),
            r@ == v@.take(i as int),
        decreases v.len() - i,
    {
        r.push(v[i]);
        assert(r@ =~= v@.take(i + 1));
        i = i + 1;
    }
    assert(v@.take(v.len() as int) =~= v@);
    r
}

fn copy_strings(v: &Vec<String>) -> (r: Vec<String>)
    ensures
        lines(r@) == lines(v@),
{
    let mut r: Vec<String> = Vec::new();
    let mut i: usize = 0;
    while i < v.len()
        invariant
            i <= v.len(),
            lines(r@) == lines(v@.take(i as int)),
        decreases v.len() - i,
    {
        let ghost before = lines(r@);
        let s = v[i].clone();
        r.push(s);
        assert(lines(r@) =~= before.push(s@));
        assert(lines(v@.take(i + 1)) =~= lines(v@.take(i as int)).push(v@[i as int]@));
        i = i + 1;
    }
    assert(v@.take(v.len() as int) =~= v@);
    r
}

impl PromptCacheSnapshot {
    /// A copy with the same fields.
    pub fn duplicate(&self) -> (r: PromptCacheSnapshot)
        ensures
            snapshot_eq(r, *self),
    {
        let names = copy_strings(&self.tool_names);
        let prefix_hashes: [u64; 3] = [self.prefix_hashes[0], self.prefix_hashes[1], self.prefix_hashes[2]];
        assert(prefix_hashes@ =~= self.prefix_hashes@);
        PromptCacheSnapshot {
            provider_type: self.provider_type,
            model: self.model.clone(),
            stable_system_hash: self.stable_system_hash,
            tool_schema_hash: self.tool_schema_hash,
            tool_count: self.tool_count,
            tool_names: names,
            message_hashes: copy_u64s(&self.message_hashes),
            prefix_hashes,
            system_message_positions: copy_usizes(&self.system_message_positions),
            system_message_hashes: copy_u64s(&self.system_message_hashes),
            dynamic_system_tokens: self.dynamic_system_tokens,
            tool_result_tokens: self.tool_result_tokens,
        }
    }
}

/// Which earlier request a fingerprint is compared with.
#[derive(Debug, Clone, PartialEq, Eq)]
pub struct PromptCacheSnapshotSource {
    pub kind: String,
    pub turn_id: Option<String>,
}

pub open spec fn source_view(s: Option<PromptCacheSnapshotSource>) -> Option<(Seq<char>, Option<Seq<char>>)> {
    match s {
        Some(src) => Some((src.kind@, crate::llm::opt_view(src.turn_id))),
        None => None,
    }
}

fn copy_source(s: &Option<PromptCacheSnapshotSource>) -> (r: Option<PromptCacheSnapshotSource>)
    ensures
        source_view(r) == source_view(*s),
{
    match s {
        Some(src) => Some(
            PromptCacheSnapshotSource {
                kind: src.kind.clone(),
                turn_id: crate::llm::clone_opt_string(&src.turn_id),
            },
        ),
        None => None,
    }
}

/// A fingerprint awaiting the provider's usage report.
#[derive(Debug, Clone)]
pub struct PendingPromptCacheObservation {
    pub snapshot: PromptCacheSnapshot,
    pub previous_snapshot_source: Option<PromptCacheSnapshotSource>,
    pub changes: Vec<String>,
}

/// A completed cache observation of one model request.
#[derive(Debug, Clone)]
pub struct PromptCacheTraceObservation {
    pub version: u32,
    pub request_kind: String,
    pub snapshot: PromptCacheSnapshot,
    pub previous_snapshot_source: Option<PromptCacheSnapshotSource>,
    pub changes: Vec<String>,
    pub cache_read_tokens: Option<u32>,
    pub cache_miss_tokens: Option<u32>,
    pub cache_creation_tokens: Option<u32>,
    pub was_compacted: Option<bool>,
}

/// Fingerprints of consecutive requests and the last cache-read count.
#[derive(Debug)]
pub struct PromptCacheTracker {
    pub previous_snapshot: Option<PromptCacheSnapshot>,
    pub previous_snapshot_source: Option<PromptCacheSnapshotSource>,
    pub previous_cache_read_tokens: Option<u32>,
    pub pending_observation: Option<PendingPromptCacheObservation>,
}

impl Default for PromptCacheTracker {
    fn default() -> (t: PromptCacheTracker)
        ensures
            t.previous_snapshot is None,
            t.previous_snapshot_source is None,
            t.previous_cache_read_tokens is None,
            t.pending_observation is None,
    {
        PromptCacheTracker {
            previous_snapshot: None,
            previous_snapshot_source: None,
            previous_cache_read_tokens: None,
            pending_observation: None,
        }
    }
}

pub open spec fn usage_field(usage: Option<Usage>, f: spec_fn(Usage) -> Option<u32>) -> Option<u32> {
    match usage {
        Some(u) => f(u),
        None => None,
    }
}

impl PromptCacheTracker {
    /// Fingerprints the next request, compares it with the previous one, and
    /// keeps it pending until the provider reports usage.
    pub fn begin(
        &mut self,
        provider_type: Option<ProviderType>,
        model: &str,
        messages: &[Message],
        message_tokens: &[u32],
        tools: &[ToolDefinition],
    )
        requires
            message_tokens.len() == messages.len(),
            all_tokens(message_tokens@) <= u32::MAX,
        ensures
            match (final(self).previous_snapshot, final(self).pending_observation) {
                (Some(s), Some(p)) => snapshot_matches(
                    s,
                    provider_type,
                    model@,
                    messages_view(messages@),
                    message_tokens@,
                    tools@,
                ) && snapshot_eq(p.snapshot, s) && source_view(p.previous_snapshot_source)
                    == source_view(old(self).previous_snapshot_source) && lines(p.changes@) == (
                match old(self).previous_snapshot {
                    Some(prev) => snapshot_changes(prev, s),
                    None => Seq::<Seq<char>>::empty(),
                }),
                _ => false,
            },
            source_view(final(self).previous_snapshot_source) == Some(
                ("currentTurnPreviousStep"@, None::<Seq<char>>),
            ),
            final(self).previous_cache_read_tokens == old(self).previous_cache_read_tokens,
    {
        let next = snapshot_for(provider_type, model, messages, message_tokens, tools);
        let changes = match &self.previous_snapshot {
            Some(previous) => diff_snapshots(previous, &next),
            None => {
                let v: Vec<String> = Vec::new();
                assert(lines(v@) =~= Seq::<Seq<char>>::empty());
                v
            },
        };
        let previous_snapshot_source = copy_source(&self.previous_snapshot_source);
        self.pending_observation = Some(
            PendingPromptCacheObservation {
                snapshot: next.duplicate(),
                previous_snapshot_source,
                changes,
            },
        );
        self.previous_snapshot = Some(next);
        self.previous_snapshot_source = Some(
            PromptCacheSnapshotSource {
                kind: String::from_str("currentTurnPreviousStep"),
                turn_id: None,
            },
        );
    }

    /// Compares the next request with the last one of an earlier turn.
    pub fn seed_previous_turn_snapshot(&mut self, turn_id: String, snapshot: PromptCacheSnapshot)
        ensures
            final(self).previous_snapshot == Some(snapshot),
            source_view(final(self).previous_snapshot_source) == Some(
                ("previousConversationTurn"@, Some(turn_id@)),
            ),
            final(self).previous_cache_read_tokens is None,
            final(self).pending_observation is None,
    {
        self.previous_snapshot = Some(snapshot);
        self.previous_snapshot_source = Some(
            PromptCacheSnapshotSource {
                kind: String::from_str("previousConversationTurn"),
                turn_id: Some(turn_id),
            },
        );
        self.previous_cache_read_tokens = None;
        self.pending_observation = None;
    }

    /// Completes the pending observation with the provider's usage report.
    pub fn complete(&mut self, usage: Option<Usage>, was_compacted: Option<bool>) -> (r: Option<
        PromptCacheTraceObservation,
    >)
        ensures
            final(self).pending_observation is None,
            final(self).previous_snapshot == old(self).previous_snapshot,
            final(self).previous_cache_read_tokens == match usage {
                Some(u) if u.cache_read_tokens is Some => u.cache_read_tokens,
                _ => old(self).previous_cache_read_tokens,
            },
            match (r, old(self).pending_observation) {
                (Some(o), Some(p)) => o.version == 1 && o.request_kind@ == "mainAgentStep"@
                    && o.snapshot == p.snapshot && o.previous_snapshot_source
                    == p.previous_snapshot_source && o.changes == p.changes && o.cache_read_tokens
                    == usage_field(usage, |u: Usage| u.cache_read_tokens) && o.cache_miss_tokens
                    == usage_field(usage, |u: Usage| u.cache_miss_tokens)
                    && o.cache_creation_tokens == usage_field(
                    usage,
                    |u: Usage| u.cache_creation_tokens,
                ) && o.was_compacted == was_compacted,
                (None, None) => true,
                _ => false,
            },
    {
        let cache_read_tokens = match usage {
            Some(u) => u.cache_read_tokens,
            None => None,
        };
        let cache_miss_tokens = match usage {
            Some(u) => u.cache_miss_tokens,
            None => None,
        };
        let cache_creation_tokens = match usage {
            Some(u) => u.cache_creation_tokens,
            None => None,
        };
        if let Some(read) = cache_read_tokens {
            self.previous_cache_read_tokens = Some(read);
        }
        let pending = self.pending_observation.take();
        match pending {
            Some(p) => Some(
                PromptCacheTraceObservation {
                    version: 1,
                    request_kind: String::from_str("mainAgentStep"),
                    snapshot: p.snapshot,
                    previous_snapshot_source: p.previous_snapshot_source,
                    changes: p.changes,
                    cache_read_tokens,
                    cache_miss_tokens,
                    cache_creation_tokens,
                    was_compacted,
                },
            ),
            None => None,
        }
    }
}

/// Two fingerprints of the same request report no change between them.
pub proof fn law_unchanged_request_reports_no_changes(
    a: PromptCacheSnapshot,
    b: PromptCacheSnapshot,
    provider_type: Option<ProviderType>,
    model: Seq<char>,
    ms: Seq<MessageView>,
    tokens: Seq<u32>,
    tools: Seq<ToolDefinition>,
)
    requires
        snapshot_matches(a, provider_type, model, ms, tokens, tools),
        snapshot_matches(b, provider_type, model, ms, tokens, tools),
    ensures
        snapshot_changes(a, b).len() == 0,
{
    assert(a.prefix_hashes@ =~= b.prefix_hashes@) by {
        assert forall|w: int| 0 <= w < 3 implies a.prefix_hashes@[w] == b.prefix_hashes@[w] by {
            assert(a.prefix_hashes@[w] == text_hash(prefix_text_from(ms, tokens, prefix_window(w), 0, 0)));
        }
    }
    assert(a.system_message_positions@ =~= b.system_message_positions@) by {
        let pa = a.system_message_positions@.map_values(|p: usize| p as int);
        let pb = b.system_message_positions@.map_values(|p: usize| p as int);
        assert(pa.len() == pb.len());
        assert forall|i: int| 0 <= i < a.system_message_positions@.len() implies a.system_message_positions@[i]
            == b.system_message_positions@[i] by {
            assert(pa[i] == pb[i]);
        }
    }
    lemma_first_diff_same(a.message_hashes@, 0);
}


/// The two sequences agree on their first `j` elements, which both have.
pub open spec fn agree_upto(p: Seq<u64>, n: Seq<u64>, j: int) -> bool {
    0 <= j <= p.len() && j <= n.len() && p.take(j) == n.take(j)
}

proof fn lemma_first_diff(p: Seq<u64>, n: Seq<u64>, i: int)
    requires
        agree_upto(p, n, i),
    ensures
        p != n ==> (first_diff_from(p, n, i) matches Some(j) && i <= j && agree_upto(p, n, j) && (j
            == p.len() || j == n.len() || p[j] != n[j])),
        p == n ==> first_diff_from(p, n, i) is None,
    decreases (if p.len() >= n.len() { p.len() } else { n.len() }) - i,
{
    let max_len = if p.len() >= n.len() {
        p.len()
    } else {
        n.len()
    };
    if i >= max_len {
        assert(p =~= p.take(i));
        assert(n =~= n.take(i));
    } else if i >= p.len() || i >= n.len() || p[i] != n[i] {
        if p == n {
            assert(i < p.len() && p[i] == n[i]);
        }
    } else {
        assert(p.take(i + 1) =~= p.take(i).push(p[i]));
        assert(n.take(i + 1) =~= n.take(i).push(n[i]));
        lemma_first_diff(p, n, i + 1);
    }
}

proof fn lemma_contains_in_middle(x: Seq<Seq<char>>, line: Seq<char>, z: Seq<Seq<char>>)
    ensures
        (x + seq![line] + z).contains(line),
{
    assert((x + seq![line] + z)[x.len() as int] == line);
}

/// When two requests' message hashes differ, the diff names the first
/// index at which they do: every earlier message is unchanged, and the
/// message at that index changed, appeared or disappeared.
#[verifier::rlimit(40)]
pub proof fn law_diff_names_the_first_changed_message(a: PromptCacheSnapshot, b: PromptCacheSnapshot)
    requires
        a.message_hashes@ != b.message_hashes@,
    ensures
        first_diff_from(a.message_hashes@, b.message_hashes@, 0) matches Some(i) && agree_upto(
            a.message_hashes@,
            b.message_hashes@,
            i,
        ) && (i == a.message_hashes@.len() || i == b.message_hashes@.len() || a.message_hashes@[i]
            != b.message_hashes@[i]) && snapshot_changes(a, b).contains("first changed message index "@ + decimal(i as nat)),
{
    let p = a.message_hashes@;
    let n = b.message_hashes@;
    assert(p.take(0) =~= n.take(0));
    lemma_first_diff(p, n, 0);
    let i = first_diff_from(p, n, 0)->0;
    let line = "first changed message index "@ + decimal(i as nat);
    assert(message_change(a, b) == seq![line]);
    let x = provider_change(a, b) + model_change(a, b) + stable_system_change(a, b) + tool_schema_change(
        a,
        b,
    );
    let z = prefix_change(a, b) + positions_change(a, b) + system_hashes_change(a, b) + count_change(
        "dynamic system tokens"@,
        a.dynamic_system_tokens,
        b.dynamic_system_tokens,
    ) + count_change("tool result tokens"@, a.tool_result_tokens, b.tool_result_tokens);
    lemma_contains_in_middle(x, line, z);
    assert(snapshot_changes(a, b) =~= x + seq![line] + z);
}

proof fn lemma_concat_contains(x: Seq<Seq<char>>, y: Seq<Seq<char>>, line: Seq<char>)
    requires
        x.contains(line) || y.contains(line),
    ensures
        (x + y).contains(line),
{
    if x.contains(line) {
        let k = choose|k: int| 0 <= k < x.len() && x[k] == line;
        assert((x + y)[k] == line);
    } else {
        let k = choose|k: int| 0 <= k < y.len() && y[k] == line;
        assert((x + y)[x.len() + k] == line);
    }
}

proof fn lemma_single_contains(line: Seq<char>)
    ensures
        seq![line].contains(line),
{
    assert(seq![line][0] == line);
}

/// A line that one part of the diff holds is in the diff.
proof fn lemma_changes_contain(p: PromptCacheSnapshot, n: PromptCacheSnapshot, line: Seq<char>)
    requires
        provider_change(p, n).contains(line) || model_change(p, n).contains(line)
            || stable_system_change(p, n).contains(line) || tool_schema_change(p, n).contains(line)
            || message_change(p, n).contains(line) || prefix_change(p, n).contains(line)
            || positions_change(p, n).contains(line) || system_hashes_change(p, n).contains(line)
            || count_change(
            "dynamic system tokens"@,
            p.dynamic_system_tokens,
            n.dynamic_system_tokens,
        ).contains(line) || count_change(
            "tool result tokens"@,
            p.tool_result_tokens,
            n.tool_result_tokens,
        ).contains(line),
    ensures
        snapshot_changes(p, n).contains(line),
{
    let a1 = provider_change(p, n);
    let a2 = a1 + model_change(p, n);
    let a3 = a2 + stable_system_change(p, n);
    let a4 = a3 + tool_schema_change(p, n);
    let a5 = a4 + message_change(p, n);
    let a6 = a5 + prefix_change(p, n);
    let a7 = a6 + positions_change(p, n);
    let a8 = a7 + system_hashes_change(p, n);
    let d = count_change("dynamic system tokens"@, p.dynamic_system_tokens, n.dynamic_system_tokens);
    let a9 = a8 + d;
    let t = count_change("tool result tokens"@, p.tool_result_tokens, n.tool_result_tokens);
    if a1.contains(line) || model_change(p, n).contains(line) {
        lemma_concat_contains(a1, model_change(p, n), line);
    }
    if a2.contains(line) || stable_system_change(p, n).contains(line) {
        lemma_concat_contains(a2, stable_system_change(p, n), line);
    }
    if a3.contains(line) || tool_schema_change(p, n).contains(line) {
        lemma_concat_contains(a3, tool_schema_change(p, n), line);
    }
    if a4.contains(line) || message_change(p, n).contains(line) {
        lemma_concat_contains(a4, message_change(p, n), line);
    }
    if a5.contains(line) || prefix_change(p, n).contains(line) {
        lemma_concat_contains(a5, prefix_change(p, n), line);
    }
    if a6.contains(line) || positions_change(p, n).contains(line) {
        lemma_concat_contains(a6, positions_change(p, n), line);
    }
    if a7.contains(line) || system_hashes_change(p, n).contains(line) {
        lemma_concat_contains(a7, system_hashes_change(p, n), line);
    }
    if a8.contains(line) || d.contains(line) {
        lemma_concat_contains(a8, d, line);
    }
    lemma_concat_contains(a9, t, line);
    assert(snapshot_changes(p, n) =~= a9 + t);
}

/// Each fingerprint field that differs between two requests yields its own
/// line in the diff: the provider and the model with their old and new
/// values, the stable system prompt, the tool schemas (with the old and new
/// count when the count changed), the prefix hashes, the system message
/// positions and hashes, and the dynamic system and tool result token counts
/// with their old and new values.
#[verifier::rlimit(60)]
pub proof fn law_each_changed_field_is_reported(a: PromptCacheSnapshot, b: PromptCacheSnapshot)
    ensures
        a.provider_type != b.provider_type ==> snapshot_changes(a, b).contains(
            "provider type changed ("@ + provider_debug(a.provider_type) + " -> "@ + provider_debug(
                b.provider_type,
            ) + ")"@,
        ),
        a.model@ != b.model@ ==> snapshot_changes(a, b).contains(
            "model changed ("@ + a.model@ + " -> "@ + b.model@ + ")"@,
        ),
        a.stable_system_hash != b.stable_system_hash ==> snapshot_changes(a, b).contains(
            "stable system prompt changed"@,
        ),
        a.tool_schema_hash != b.tool_schema_hash && a.tool_count == b.tool_count ==> snapshot_changes(
            a,
            b,
        ).contains("tool schemas changed with same count"@),
        a.tool_schema_hash != b.tool_schema_hash && a.tool_count != b.tool_count ==> snapshot_changes(
            a,
            b,
        ).contains(
            "tool count changed ("@ + decimal(a.tool_count as nat) + " -> "@ + decimal(
                b.tool_count as nat,
            ) + ")"@,
        ),
        a.prefix_hashes@ != b.prefix_hashes@ ==> snapshot_changes(a, b).contains(
            "serialized prefix hash changed ("@ + join_with(
                changed_windows(a.prefix_hashes@, b.prefix_hashes@, 3),
                ", "@,
            ) + ")"@,
        ),
        a.system_message_positions@ != b.system_message_positions@ ==> snapshot_changes(
            a,
            b,
        ).contains(
            "system message positions changed ("@ + positions_debug(a.system_message_positions@)
                + " -> "@ + positions_debug(b.system_message_positions@) + ")"@,
        ),
        a.system_message_hashes@ != b.system_message_hashes@ ==> snapshot_changes(a, b).contains(
            "system message hashes changed"@,
        ),
        a.dynamic_system_tokens != b.dynamic_system_tokens ==> snapshot_changes(a, b).contains(
            "dynamic system tokens changed ("@ + decimal(a.dynamic_system_tokens as nat) + " -> "@
                + decimal(b.dynamic_system_tokens as nat) + ")"@,
        ),
        a.tool_result_tokens != b.tool_result_tokens ==> snapshot_changes(a, b).contains(
            "tool result tokens changed ("@ + decimal(a.tool_result_tokens as nat) + " -> "@
                + decimal(b.tool_result_tokens as nat) + ")"@,
        ),
{
    let pl = "provider type changed ("@ + provider_debug(a.provider_type) + " -> "@ + provider_debug(
        b.provider_type,
    ) + ")"@;
    if a.provider_type != b.provider_type {
        lemma_single_contains(pl);
        lemma_changes_contain(a, b, pl);
    }
    let ml = "model changed ("@ + a.model@ + " -> "@ + b.model@ + ")"@;
    if a.model@ != b.model@ {
        lemma_single_contains(ml);
        lemma_changes_contain(a, b, ml);
    }
    if a.stable_system_hash != b.stable_system_hash {
        lemma_single_contains("stable system prompt changed"@);
        lemma_changes_contain(a, b, "stable system prompt changed"@);
    }
    let tl = "tool count changed ("@ + decimal(a.tool_count as nat) + " -> "@ + decimal(
        b.tool_count as nat,
    ) + ")"@;
    if a.tool_schema_hash != b.tool_schema_hash {
        if a.tool_count == b.tool_count {
            lemma_single_contains("tool schemas changed with same count"@);
            lemma_changes_contain(a, b, "tool schemas changed with same count"@);
        } else {
            lemma_single_contains(tl);
            lemma_changes_contain(a, b, tl);
        }
    }
    let xl = "serialized prefix hash changed ("@ + join_with(
        changed_windows(a.prefix_hashes@, b.prefix_hashes@, 3),
        ", "@,
    ) + ")"@;
    if a.prefix_hashes@ != b.prefix_hashes@ {
        lemma_single_contains(xl);
        lemma_changes_contain(a, b, xl);
    }
    let ql = "system message positions changed ("@ + positions_debug(a.system_message_positions@)
        + " -> "@ + positions_debug(b.system_message_positions@) + ")"@;
    if a.system_message_positions@ != b.system_message_positions@ {
        lemma_single_contains(ql);
        lemma_changes_contain(a, b, ql);
    }
    if a.system_message_hashes@ != b.system_message_hashes@ {
        lemma_single_contains("system message hashes changed"@);
        lemma_changes_contain(a, b, "system message hashes changed"@);
    }
    let dl = "dynamic system tokens changed ("@ + decimal(a.dynamic_system_tokens as nat) + " -> "@
        + decimal(b.dynamic_system_tokens as nat) + ")"@;
    if a.dynamic_system_tokens != b.dynamic_system_tokens {
        reveal_strlit("dynamic system tokens changed (");
        reveal_strlit("dynamic system tokens");
        reveal_strlit(" changed (");
        assert("dynamic system tokens changed ("@ =~= "dynamic system tokens"@ + " changed ("@);
        assert(dl =~= "dynamic system tokens"@ + " changed ("@ + decimal(
            a.dynamic_system_tokens as nat,
        ) + " -> "@ + decimal(b.dynamic_system_tokens as nat) + ")"@);
        lemma_single_contains(dl);
        lemma_changes_contain(a, b, dl);
    }
    let rl = "tool result tokens changed ("@ + decimal(a.tool_result_tokens as nat) + " -> "@
        + decimal(b.tool_result_tokens as nat) + ")"@;
    if a.tool_result_tokens != b.tool_result_tokens {
        reveal_strlit("tool result tokens changed (");
        reveal_strlit("tool result tokens");
        reveal_strlit(" changed (");
        assert("tool result tokens changed ("@ =~= "tool result tokens"@ + " changed ("@);
        assert(rl =~= "tool result tokens"@ + " changed ("@ + decimal(a.tool_result_tokens as nat)
            + " -> "@ + decimal(b.tool_result_tokens as nat) + ")"@);
        lemma_single_contains(rl);
        lemma_changes_contain(a, b, rl);
    }
}

} // verus!
