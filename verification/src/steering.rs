//! Steering input that arrives while a turn runs, and the reasoning a
//! model step carries forward.

use vstd::prelude::*;

use crate::agent::AgentSteeringMessage;
use crate::llm::{opt_view, ProviderType, ReasoningEffort, ReasoningReplayPolicy};
use crate::text::{chars_of, decimal, decimal_string, string_of, trim, trim_chars};

verus! {

/// Stands for reasoning a provider requires but local history lacks.
pub const MISSING_REASONING_CONTENT_PLACEHOLDER: &'static str = "[reasoning content unavailable in local history]";

pub open spec fn steering_status(count: nat) -> Seq<char> {
    if count == 1 {
        "Steering message received; applying it to the next agent step."@
    } else {
        decimal(count) + " steering messages received; applying them to the next agent step."@
    }
}

/// The status shown when steering messages are taken into a turn.
pub fn steering_status_text(count: usize) -> (s: String)
    ensures
        s@ == steering_status(count as nat),
{
    let mut s = String::new();
    if count == 1 {
        s.append("Steering message received; applying it to the next agent step.");
    } else {
        let n = decimal_string(count as u64);
        s.append(n.as_str());
        s.append(" steering messages received; applying them to the next agent step.");
    }
    s
}

/// The trimmed texts of the steering messages that carry something: a
/// message with blank text and no parts is dropped.
pub open spec fn accepted_texts(messages: Seq<AgentSteeringMessage>) -> Seq<Seq<char>>
    decreases messages.len(),
{
    if messages.len() == 0 {
        Seq::empty()
    } else {
        let rest = accepted_texts(messages.drop_last());
        let m = messages.last();
        if trim(m.content@).len() == 0 && m.parts@.len() == 0 {
            rest
        } else {
            rest.push(trim(m.content@))
        }
    }
}

pub fn accepted_steering_texts(messages: &Vec<AgentSteeringMessage>) -> (r: Vec<String>)
    ensures
        r@.map_values(|s: String| s@) == accepted_texts(messages@),
{
    let mut r: Vec<String> = Vec::new();
    let mut i: usize = 0;
    while i < messages.len()
        invariant
            i <= messages.len(),
            r@.map_values(|s: String| s@) == accepted_texts(messages@.take(i as int)),
        decreases messages.len() - i,
    {
        proof {
            assert(messages@.take(i + 1).drop_last() =~= messages@.take(i as int));
            assert(messages@.take(i + 1).last() == messages@[i as int]);
        }
        let chars = chars_of(messages[i].content.as_str());
        let text = trim_chars(chars.as_slice());
        if text.len() > 0 || messages[i].parts.len() > 0 {
            let ghost before = r@.map_values(|s: String| s@);
            r.push(string_of(text.as_slice()));
            assert(r@.map_values(|s: String| s@) =~= before.push(trim(messages@[i as int].content@)));
        }
        i = i + 1;
    }
    assert(messages@.take(i as int) =~= messages@);
    r
}

pub open spec fn carried_reasoning(
    thinking: Seq<char>,
    has_tool_calls: bool,
    reasoning_enabled: Option<bool>,
    provider_type: Option<ProviderType>,
) -> Option<Seq<char>> {
    if thinking.len() > 0 {
        Some(thinking)
    } else if has_tool_calls && reasoning_enabled == Some(true) && provider_type == Some(
        ProviderType::DeepSeek,
    ) {
        Some(MISSING_REASONING_CONTENT_PLACEHOLDER@)
    } else {
        None
    }
}

/// The reasoning to keep with an assistant step: its own thinking when it
/// has any; the placeholder when it called tools on DeepSeek with
/// reasoning on; none otherwise.
pub fn reasoning_content_for_iteration(
    iteration_thinking: &str,
    has_tool_calls: bool,
    reasoning_enabled: Option<bool>,
    provider_type: Option<ProviderType>,
) -> (r: Option<String>)
    ensures
        opt_view(r) == carried_reasoning(
            iteration_thinking@,
            has_tool_calls,
            reasoning_enabled,
            provider_type,
        ),
{
    if !iteration_thinking.is_empty() {
        let mut t = String::new();
        t.append(iteration_thinking);
        return Some(t);
    }
    let enabled = match reasoning_enabled {
        Some(true) => true,
        _ => false,
    };
    let deepseek = match provider_type {
        Some(ProviderType::DeepSeek) => true,
        _ => false,
    };
    if has_tool_calls && enabled && deepseek {
        let mut t = String::new();
        t.append(MISSING_REASONING_CONTENT_PLACEHOLDER);
        return Some(t);
    }
    None
}

/// The replay policy a request follows: none is needed when reasoning is
/// forced off, disabled, or at effort `none`; otherwise the provider's.
pub fn reasoning_replay_policy_for_request(
    force_reasoning_off: bool,
    reasoning_enabled: Option<bool>,
    reasoning_effort: Option<ReasoningEffort>,
    provider_policy: ReasoningReplayPolicy,
) -> (p: ReasoningReplayPolicy)
    ensures
        p == if force_reasoning_off || reasoning_enabled == Some(false) || reasoning_effort == Some(
            ReasoningEffort::Disabled,
        ) {
            ReasoningReplayPolicy::NotRequired
        } else {
            provider_policy
        },
{
    let disabled = match reasoning_enabled {
        Some(false) => true,
        _ => false,
    };
    let no_effort = match reasoning_effort {
        Some(ReasoningEffort::Disabled) => true,
        _ => false,
    };
    if force_reasoning_off || disabled || no_effort {
        ReasoningReplayPolicy::NotRequired
    } else {
        provider_policy
    }
}

/// The steering texts taken into a turn are, in arrival order, the trimmed
/// texts of exactly those messages whose trimmed text is not empty or that
/// carry content parts.
pub proof fn law_steering_keeps_each_message_that_carries_something(messages: Seq<AgentSteeringMessage>)
    ensures
        accepted_texts(messages) == messages.filter(
            |m: AgentSteeringMessage| trim(m.content@).len() > 0 || m.parts@.len() > 0,
        ).map_values(|m: AgentSteeringMessage| trim(m.content@)),
    decreases messages.len(),
{
    reveal(Seq::filter);
    if messages.len() > 0 {
        law_steering_keeps_each_message_that_carries_something(messages.drop_last());
        let kept = messages.drop_last().filter(
            |m: AgentSteeringMessage| trim(m.content@).len() > 0 || m.parts@.len() > 0,
        );
        assert(kept.push(messages.last()).map_values(|m: AgentSteeringMessage| trim(m.content@))
            =~= kept.map_values(|m: AgentSteeringMessage| trim(m.content@)).push(
            trim(messages.last().content@),
        ));
    }
}

} // verus!
