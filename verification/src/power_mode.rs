//! Per-turn agent power modes and the execution policy they resolve to.

use vstd::prelude::*;

use crate::llm::{ProviderType, ReasoningEffort};
use crate::text::{chars_of, eq_ignore_ascii_case, eq_ignore_ascii_case_chars, string_of, trim, trim_chars};

verus! {

pub const NEXUS_MAX_ITERATIONS_FLOOR: u32 = 48;

pub const NEXUS_MAX_PARALLEL: u32 = 6;

pub const NEXUS_MAX_CALLS_PER_TURN: u32 = 12;

pub const NEXUS_TOKEN_BUDGET: u32 = 96_000;

/// Backward-compatible signal that enables dedicated verification/judge lanes.
pub const NEXUS_VERIFICATION_RESERVE_PERCENT: u32 = 25;

/// How much orchestration the user asked for on this turn.
#[derive(Debug, Clone, Copy, PartialEq, Eq, Structural)]
pub enum AgentPowerMode {
    Standard,
    Nexus,
}

/// A trimmed, non-blank wire value.
pub open spec fn wire_value(value: Option<Seq<char>>) -> Option<Seq<char>> {
    match value {
        Some(v) => if trim(v).len() > 0 {
            Some(trim(v))
        } else {
            None
        },
        None => None,
    }
}

pub open spec fn opt_view(value: Option<&str>) -> Option<Seq<char>> {
    match value {
        Some(v) => Some(v@),
        None => None,
    }
}

/// Trims a wire value and drops it when blank.
pub fn normalize_wire_value(value: Option<&str>) -> (r: Option<Vec<char>>)
    ensures
        match r {
            Some(v) => wire_value(opt_view(value)) == Some(v@),
            None => wire_value(opt_view(value)) is None,
        },
{
    match value {
        Some(v) => {
            let chars = chars_of(v);
            let t = trim_chars(chars.as_slice());
            if t.len() > 0 {
                Some(t)
            } else {
                None
            }
        },
        None => None,
    }
}

pub open spec fn power_mode_from_wire(value: Option<Seq<char>>) -> Result<AgentPowerMode, Seq<char>> {
    match wire_value(value) {
        None => Ok(AgentPowerMode::Standard),
        Some(v) => if eq_ignore_ascii_case(v, "standard"@) || eq_ignore_ascii_case(v, "default"@) {
            Ok(AgentPowerMode::Standard)
        } else if eq_ignore_ascii_case(v, "nexus"@) {
            Ok(AgentPowerMode::Nexus)
        } else {
            Err("Unsupported agent power mode '"@ + v + "'."@)
        },
    }
}

impl AgentPowerMode {
    pub fn is_nexus(self) -> (b: bool)
        ensures
            b == (self == AgentPowerMode::Nexus),
    {
        match self {
            AgentPowerMode::Nexus => true,
            AgentPowerMode::Standard => false,
        }
    }

    pub fn as_str(self) -> (s: &'static str)
        ensures
            s@ == (match self {
                AgentPowerMode::Standard => "standard"@,
                AgentPowerMode::Nexus => "nexus"@,
            }),
    {
        match self {
            AgentPowerMode::Standard => "standard",
            AgentPowerMode::Nexus => "nexus",
        }
    }

    /// Parses the wire value; a missing or blank value means `Standard`.
    pub fn from_wire(value: Option<&str>) -> (r: Result<AgentPowerMode, String>)
        ensures
            match r {
                Ok(m) => power_mode_from_wire(opt_view(value)) == Ok::<AgentPowerMode, Seq<char>>(m),
                Err(e) => power_mode_from_wire(opt_view(value)) == Err::<AgentPowerMode, Seq<char>>(e@),
            },
    {
        match normalize_wire_value(value) {
            None => Ok(AgentPowerMode::Standard),
            Some(v) => {
                let standard = chars_of("standard");
                let default = chars_of("default");
                let nexus = chars_of("nexus");
                if eq_ignore_ascii_case_chars(v.as_slice(), standard.as_slice())
                    || eq_ignore_ascii_case_chars(v.as_slice(), default.as_slice()) {
                    Ok(AgentPowerMode::Standard)
                } else if eq_ignore_ascii_case_chars(v.as_slice(), nexus.as_slice()) {
                    Ok(AgentPowerMode::Nexus)
                } else {
                    let mut m = String::new();
                    m.append("Unsupported agent power mode '");
                    let text = string_of(v.as_slice());
                    m.append(text.as_str());
                    m.append("'.");
                    Err(m)
                }
            },
        }
    }
}

/// Thinking-budget capability of a model, as declared by the model catalog.
#[derive(Debug, Clone, Copy, PartialEq, Eq)]
pub struct ThinkingBudgetCapability {
    pub enabled: bool,
    pub min_tokens: Option<u32>,
    pub max_tokens: Option<u32>,
    pub default_tokens: Option<u32>,
    pub allow_zero: Option<bool>,
}

/// Reasoning capability of a model, as declared by the model catalog.
#[derive(Debug, Clone, PartialEq, Eq)]
pub struct ReasoningCapability {
    /// Supported effort levels, weakest first.
    pub effort_levels: Vec<String>,
    pub thinking_budget: Option<ThinkingBudgetCapability>,
    /// The provider accepts an effort or a budget, never both.
    pub effort_budget_exclusive: bool,
    /// `"always"` when reasoning cannot be switched off.
    pub mode: Option<String>,
    pub default_effort: Option<String>,
}

/// Capabilities the model catalog declares for one model.
#[derive(Debug, Clone, PartialEq, Eq)]
pub struct ModelCapabilities {
    pub reasoning: Option<ReasoningCapability>,
}

/// Request-side settings that a power mode resolves.
#[derive(Debug, Clone)]
pub struct AgentPowerPolicyInput<'a> {
    pub mode: AgentPowerMode,
    pub provider_type: ProviderType,
    pub model: &'a str,
    /// What the model catalog declares for `provider_type` and `model`
    /// (`None` when the model is not listed).
    pub capabilities: Option<ModelCapabilities>,
    pub max_iterations: u32,
    pub reasoning_enabled: Option<bool>,
    pub thinking_budget: Option<u32>,
    pub reasoning_effort: Option<ReasoningEffort>,
    pub subagent_max_parallel: Option<u32>,
    pub subagent_max_calls_per_turn: Option<u32>,
    pub subagent_token_budget: Option<u32>,
}

/// The effective per-turn execution policy.
#[derive(Debug, Clone, Copy, PartialEq, Eq)]
pub struct ResolvedAgentPowerPolicy {
    pub mode: AgentPowerMode,
    pub max_iterations: u32,
    pub reasoning_enabled: Option<bool>,
    pub thinking_budget: Option<u32>,
    pub reasoning_effort: Option<ReasoningEffort>,
    pub subagent_max_parallel: Option<u32>,
    pub subagent_max_calls_per_turn: Option<u32>,
    pub subagent_token_budget: Option<u32>,
    pub verification_reserve_percent: Option<u32>,
    pub model_capability_resolved: bool,
}

/// Wire spelling of each effort level.
pub open spec fn effort_from_wire(value: Seq<char>) -> Option<ReasoningEffort> {
    let v = crate::text::lower_seq(trim(value));
    if v == "none"@ {
        Some(ReasoningEffort::Disabled)
    } else if v == "minimal"@ {
        Some(ReasoningEffort::Minimal)
    } else if v == "low"@ {
        Some(ReasoningEffort::Low)
    } else if v == "medium"@ {
        Some(ReasoningEffort::Medium)
    } else if v == "high"@ {
        Some(ReasoningEffort::High)
    } else if v == "xhigh"@ {
        Some(ReasoningEffort::XHigh)
    } else if v == "max"@ {
        Some(ReasoningEffort::Max)
    } else {
        None
    }
}

impl ReasoningEffort {
    /// Parses a wire effort level (trimmed, ASCII case-insensitive).
    pub fn from_wire(value: &str) -> (r: Option<ReasoningEffort>)
        ensures
            r == effort_from_wire(value@),
    {
        let chars = chars_of(value);
        let t = trim_chars(chars.as_slice());
        let v = crate::text::lower_chars(t.as_slice());
        let s = v.as_slice();
        if crate::text::chars_eq(s, chars_of("none").as_slice()) {
            Some(ReasoningEffort::Disabled)
        } else if crate::text::chars_eq(s, chars_of("minimal").as_slice()) {
            Some(ReasoningEffort::Minimal)
        } else if crate::text::chars_eq(s, chars_of("low").as_slice()) {
            Some(ReasoningEffort::Low)
        } else if crate::text::chars_eq(s, chars_of("medium").as_slice()) {
            Some(ReasoningEffort::Medium)
        } else if crate::text::chars_eq(s, chars_of("high").as_slice()) {
            Some(ReasoningEffort::High)
        } else if crate::text::chars_eq(s, chars_of("xhigh").as_slice()) {
            Some(ReasoningEffort::XHigh)
        } else if crate::text::chars_eq(s, chars_of("max").as_slice()) {
            Some(ReasoningEffort::Max)
        } else {
            None
        }
    }
}

pub fn parse_reasoning_effort(value: &str) -> (r: Option<ReasoningEffort>)
    ensures
        r == effort_from_wire(value@),
{
    ReasoningEffort::from_wire(value)
}

pub open spec fn level_views(levels: Seq<String>) -> Seq<Seq<char>> {
    levels.map_values(|l: String| l@)
}

/// The strongest (last-listed) level that parses.
pub open spec fn strongest_parsed_effort(levels: Seq<Seq<char>>) -> Option<ReasoningEffort>
    decreases levels.len(),
{
    if levels.len() == 0 {
        None
    } else {
        match effort_from_wire(levels.last()) {
            Some(e) => Some(e),
            None => strongest_parsed_effort(levels.drop_last()),
        }
    }
}

pub open spec fn max_u32(a: u32, b: u32) -> u32 {
    if a >= b {
        a
    } else {
        b
    }
}

pub open spec fn unwrap_or_zero(o: Option<u32>) -> u32 {
    match o {
        Some(v) => v,
        None => 0,
    }
}

/// Reasoning controls a Nexus turn adopts from a declared reasoning capability.
pub open spec fn nexus_reasoning(
    reasoning: ReasoningCapability,
    thinking_budget: Option<u32>,
) -> (Option<bool>, Option<u32>, Option<ReasoningEffort>) {
    let effort = match strongest_parsed_effort(level_views(reasoning.effort_levels@)) {
        Some(ReasoningEffort::Disabled) => None,
        other => other,
    };
    let budget = match reasoning.thinking_budget {
        Some(b) => if b.enabled {
            if reasoning.effort_budget_exclusive && effort is Some {
                None
            } else {
                let catalog = if b.max_tokens is Some {
                    b.max_tokens
                } else {
                    b.default_tokens
                };
                match catalog {
                    Some(c) => Some(
                        max_u32(
                            max_u32(unwrap_or_zero(thinking_budget), c),
                            unwrap_or_zero(b.min_tokens),
                        ),
                    ),
                    None => thinking_budget,
                }
            }
        } else {
            None
        },
        None => None,
    };
    (Some(true), budget, effort)
}

pub open spec fn resolve_spec(input: AgentPowerPolicyInput) -> ResolvedAgentPowerPolicy {
    if input.mode != AgentPowerMode::Nexus {
        ResolvedAgentPowerPolicy {
            mode: input.mode,
            max_iterations: input.max_iterations,
            reasoning_enabled: input.reasoning_enabled,
            thinking_budget: input.thinking_budget,
            reasoning_effort: input.reasoning_effort,
            subagent_max_parallel: input.subagent_max_parallel,
            subagent_max_calls_per_turn: input.subagent_max_calls_per_turn,
            subagent_token_budget: input.subagent_token_budget,
            verification_reserve_percent: None,
            model_capability_resolved: false,
        }
    } else {
        let (enabled, budget, effort) = match input.capabilities {
            Some(c) => match c.reasoning {
                Some(r) => nexus_reasoning(r, input.thinking_budget),
                None => (input.reasoning_enabled, input.thinking_budget, input.reasoning_effort),
            },
            None => (input.reasoning_enabled, input.thinking_budget, input.reasoning_effort),
        };
        ResolvedAgentPowerPolicy {
            mode: input.mode,
            max_iterations: max_u32(input.max_iterations, NEXUS_MAX_ITERATIONS_FLOOR),
            reasoning_enabled: enabled,
            thinking_budget: budget,
            reasoning_effort: effort,
            subagent_max_parallel: Some(NEXUS_MAX_PARALLEL),
            subagent_max_calls_per_turn: Some(NEXUS_MAX_CALLS_PER_TURN),
            subagent_token_budget: Some(NEXUS_TOKEN_BUDGET),
            verification_reserve_percent: Some(NEXUS_VERIFICATION_RESERVE_PERCENT),
            model_capability_resolved: input.capabilities is Some,
        }
    }
}

fn strongest_effort(levels: &Vec<String>) -> (r: Option<ReasoningEffort>)
    ensures
        r == strongest_parsed_effort(level_views(levels@)),
{
    let mut i = levels.len();
    let ghost views = level_views(levels@);
    assert(views.take(levels.len() as int) =~= views);
    while i > 0
        invariant
            i <= levels.len(),
            views == level_views(levels@),
            strongest_parsed_effort(views) == strongest_parsed_effort(views.take(i as int)),
        decreases i,
    {
        let parsed = parse_reasoning_effort(levels[i - 1].as_str());
        assert(views.take(i as int).last() == levels@[i - 1]@);
        assert(views.take(i as int).drop_last() =~= views.take(i - 1));
        if parsed.is_some() {
            return parsed;
        }
        i = i - 1;
    }
    None
}

/// Resolves the effective execution policy of a turn.
///
/// Standard mode preserves the user's configuration. Nexus mode raises the
/// iteration floor, enables the delegation lanes, and adopts only the
/// reasoning controls that the model catalog declares for the model.
pub fn resolve_agent_power_policy(input: AgentPowerPolicyInput<'_>) -> (r: ResolvedAgentPowerPolicy)
    ensures
        r == resolve_spec(input),
{
    if !input.mode.is_nexus() {
        return ResolvedAgentPowerPolicy {
            mode: input.mode,
            max_iterations: input.max_iterations,
            reasoning_enabled: input.reasoning_enabled,
            thinking_budget: input.thinking_budget,
            reasoning_effort: input.reasoning_effort,
            subagent_max_parallel: input.subagent_max_parallel,
            subagent_max_calls_per_turn: input.subagent_max_calls_per_turn,
            subagent_token_budget: input.subagent_token_budget,
            verification_reserve_percent: None,
            model_capability_resolved: false,
        };
    }
    let model_capability_resolved = input.capabilities.is_some();
    let mut reasoning_enabled = input.reasoning_enabled;
    let mut thinking_budget = input.thinking_budget;
    let mut reasoning_effort = input.reasoning_effort;
    if let Some(capabilities) = &input.capabilities {
        if let Some(reasoning) = &capabilities.reasoning {
            reasoning_enabled = Some(true);
            reasoning_effort = match strongest_effort(&reasoning.effort_levels) {
                Some(ReasoningEffort::Disabled) => None,
                other => other,
            };
            match reasoning.thinking_budget {
                Some(budget) => {
                    if budget.enabled {
                        if reasoning.effort_budget_exclusive && reasoning_effort.is_some() {
                            thinking_budget = None;
                        } else {
                            let catalog_budget = if budget.max_tokens.is_some() {
                                budget.max_tokens
                            } else {
                                budget.default_tokens
                            };
                            if let Some(catalog_budget) = catalog_budget {
                                let current = match thinking_budget {
                                    Some(v) => v,
                                    None => 0,
                                };
                                let floor = match budget.min_tokens {
                                    Some(v) => v,
                                    None => 0,
                                };
                                let a = if current >= catalog_budget {
                                    current
                                } else {
                                    catalog_budget
                                };
                                thinking_budget = Some(
                                    if a >= floor {
                                        a
                                    } else {
                                        floor
                                    },
                                );
                            }
                        }
                    } else {
                        thinking_budget = None;
                    }
                },
                None => {
                    thinking_budget = None;
                },
            }
        }
    }
    ResolvedAgentPowerPolicy {
        mode: input.mode,
        max_iterations: if input.max_iterations >= NEXUS_MAX_ITERATIONS_FLOOR {
            input.max_iterations
        } else {
            NEXUS_MAX_ITERATIONS_FLOOR
        },
        reasoning_enabled,
        thinking_budget,
        reasoning_effort,
        subagent_max_parallel: Some(NEXUS_MAX_PARALLEL),
        subagent_max_calls_per_turn: Some(NEXUS_MAX_CALLS_PER_TURN),
        subagent_token_budget: Some(NEXUS_TOKEN_BUDGET),
        verification_reserve_percent: Some(NEXUS_VERIFICATION_RESERVE_PERCENT),
        model_capability_resolved,
    }
}

pub open spec fn nexus_prompt() -> Seq<char> {
    "## Nexus Execution Policy\n\nThe user explicitly enabled Nexus mode for this turn. The parent agent is the lead and must actively orchestrate specialist subagents rather than merely doing all work itself.\n- For any non-trivial task with two or more independent investigation, implementation-planning, debugging, research, or review tracks, call `spawn_subagent_batch` early with 3-6 focused subagents. This is a required Nexus behavior, not an optional suggestion.\n- Give each subagent a narrow role, explicit deliverable, relevant read-only tools, and disjoint ownership. Keep final synthesis and write ownership with the parent unless parallel writes are provably isolated.\n- Work in evidence-driven waves: parallel reconnaissance first, parent synthesis and implementation second, then an independent verifier or `judge_subagent_results` pass. Reuse workflow templates such as `research_verify` when they fit.\n- Use the runtime's dedicated verification and judge lanes after exploration. These lanes preserve concurrency and call admission without freezing a fixed percentage of the delegated token budget.\n- Prefer objective checks, primary evidence, independent reproduction, and an explicit verifier or judge over majority voting. Correlated agreement is not proof.\n- The runtime has selected only reasoning controls declared by the active model catalog. Never claim an unsupported reasoning level.\n- Do not fan out a truly trivial or tightly coupled one-step task. Extra agents can add latency, cost, overthinking, and conflicting edits. If you do not delegate, state internally why the task is trivial or inseparable."@
}

impl ResolvedAgentPowerPolicy {
    /// System-prompt section for the resolved mode; empty outside Nexus mode.
    pub fn prompt_section(&self) -> (s: &'static str)
        ensures
            s@ == if self.mode == AgentPowerMode::Nexus {
                nexus_prompt()
            } else {
                Seq::<char>::empty()
            },
    {
        if !self.mode.is_nexus() {
            proof {
                reveal_strlit("");
            }
            return "";
        }
        "## Nexus Execution Policy\n\nThe user explicitly enabled Nexus mode for this turn. The parent agent is the lead and must actively orchestrate specialist subagents rather than merely doing all work itself.\n- For any non-trivial task with two or more independent investigation, implementation-planning, debugging, research, or review tracks, call `spawn_subagent_batch` early with 3-6 focused subagents. This is a required Nexus behavior, not an optional suggestion.\n- Give each subagent a narrow role, explicit deliverable, relevant read-only tools, and disjoint ownership. Keep final synthesis and write ownership with the parent unless parallel writes are provably isolated.\n- Work in evidence-driven waves: parallel reconnaissance first, parent synthesis and implementation second, then an independent verifier or `judge_subagent_results` pass. Reuse workflow templates such as `research_verify` when they fit.\n- Use the runtime's dedicated verification and judge lanes after exploration. These lanes preserve concurrency and call admission without freezing a fixed percentage of the delegated token budget.\n- Prefer objective checks, primary evidence, independent reproduction, and an explicit verifier or judge over majority voting. Correlated agreement is not proof.\n- The runtime has selected only reasoning controls declared by the active model catalog. Never claim an unsupported reasoning level.\n- Do not fan out a truly trivial or tightly coupled one-step task. Extra agents can add latency, cost, overthinking, and conflicting edits. If you do not delegate, state internally why the task is trivial or inseparable."
    }
}

/// Standard mode never changes the user's configuration.
pub proof fn law_standard_mode_preserves_configuration(input: AgentPowerPolicyInput)
    requires
        input.mode == AgentPowerMode::Standard,
    ensures
        ({
            let r = resolve_spec(input);
            &&& r.max_iterations == input.max_iterations
            &&& r.reasoning_enabled == input.reasoning_enabled
            &&& r.thinking_budget == input.thinking_budget
            &&& r.reasoning_effort == input.reasoning_effort
            &&& r.subagent_max_parallel == input.subagent_max_parallel
            &&& r.subagent_max_calls_per_turn == input.subagent_max_calls_per_turn
            &&& r.subagent_token_budget == input.subagent_token_budget
            &&& r.verification_reserve_percent is None
        }),
{
}

/// Nexus mode never lowers the iteration budget, and adopts only reasoning
/// levels the catalog lists: it never invents an effort level.
pub proof fn law_nexus_adopts_only_declared_reasoning(input: AgentPowerPolicyInput)
    requires
        input.mode == AgentPowerMode::Nexus,
    ensures
        ({
            let r = resolve_spec(input);
            &&& r.max_iterations >= input.max_iterations
            &&& r.max_iterations >= NEXUS_MAX_ITERATIONS_FLOOR
            &&& r.model_capability_resolved == input.capabilities is Some
            &&& (input.capabilities is None ==> r.reasoning_effort == input.reasoning_effort
                && r.reasoning_enabled == input.reasoning_enabled)
            &&& (input.capabilities matches Some(c) ==> c.reasoning matches Some(reasoning) ==> (
            r.reasoning_effort matches Some(e) ==> e != ReasoningEffort::Disabled && exists|i: int|
                0 <= i < reasoning.effort_levels@.len() && effort_from_wire(
                    #[trigger] reasoning.effort_levels@[i]@,
                ) == Some(e)))
        }),
{
    if let Some(c) = input.capabilities {
        if let Some(reasoning) = c.reasoning {
            lemma_strongest_is_listed(level_views(reasoning.effort_levels@));
            let views = level_views(reasoning.effort_levels@);
            let r = resolve_spec(input);
            if let Some(e) = r.reasoning_effort {
                let i = choose|i: int| 0 <= i < views.len() && effort_from_wire(views[i]) == Some(e);
                assert(views[i] == reasoning.effort_levels@[i]@);
            }
        }
    }
}

proof fn lemma_strongest_is_listed(levels: Seq<Seq<char>>)
    ensures
        strongest_parsed_effort(levels) matches Some(e) ==> exists|i: int|
            0 <= i < levels.len() && effort_from_wire(levels[i]) == Some(e),
    decreases levels.len(),
{
    if levels.len() > 0 {
        lemma_strongest_is_listed(levels.drop_last());
        if let Some(e) = strongest_parsed_effort(levels) {
            if effort_from_wire(levels.last()) is Some {
                assert(effort_from_wire(levels[levels.len() - 1]) == Some(e));
            } else {
                let i = choose|i: int|
                    0 <= i < levels.drop_last().len() && effort_from_wire(levels.drop_last()[i])
                        == Some(e);
                assert(levels[i] == levels.drop_last()[i]);
            }
        }
    }
}

} // verus!
