//! Liveness policy around model execution.
//!
//! Transport activity is authoritative for stream liveness. This module owns
//! only the deadlines the transport cannot express: the initial connection
//! deadline and the absolute cap for provider-hosted tools that may already
//! have side effects. Times are milliseconds on a monotonic clock read by the
//! caller.

use vstd::prelude::*;

use crate::llm::{ProviderType, ReasoningEffort};
use crate::power_mode::{effort_from_wire, level_views, ReasoningCapability};
use crate::route::AgentRouteKind;
use crate::text::{chars_of, contains_chars, contains_seq, lower_chars, lower_seq, trim, trim_chars};

verus! {

pub const LONG_REASONER_CONNECT_DEADLINE_MS: u64 = 90_000;

pub const DEFAULT_CONNECT_DEADLINE_MS: u64 = 180_000;

pub const LOCAL_MODEL_CONNECT_DEADLINE_MS: u64 = 300_000;

pub const HOSTED_TOOL_IDLE_DEADLINE_MS: u64 = 180_000;

pub const HOSTED_TOOL_HARD_DEADLINE_MS: u64 = 600_000;

/// Size limits the model catalog declares for a model.
#[derive(Debug, Clone, Copy, PartialEq, Eq, Structural)]
pub struct ModelLimits {
    pub context_tokens: Option<u64>,
    pub max_output_tokens: Option<u64>,
}

/// Deadlines of one model request.
#[derive(Debug, Clone, Copy, PartialEq, Eq, Structural)]
pub struct ModelProgressPolicy {
    pub hosted_tool_idle_deadline_ms: u64,
    pub connect_deadline_ms: u64,
}

pub open spec fn at_least(o: Option<u32>, n: u32) -> bool {
    match o {
        Some(v) => v >= n,
        None => false,
    }
}

pub open spec fn tokens_at_least(o: Option<u64>, n: u64) -> bool {
    match o {
        Some(v) => v >= n,
        None => false,
    }
}

pub open spec fn opt_str_view(o: Option<String>) -> Option<Seq<char>> {
    crate::llm::opt_view(o)
}

/// The catalog marks a model as a long reasoner: a very large context or
/// output, a default effort of `xhigh` or `max`, or a thinking budget of at
/// least 65 536 tokens.
pub open spec fn catalog_long_reasoner(limits: Option<ModelLimits>, reasoning: Option<ReasoningCapability>) -> bool {
    (match limits {
        Some(l) => tokens_at_least(l.context_tokens, 500_000) || tokens_at_least(l.max_output_tokens, 65_536),
        None => false,
    }) || (match reasoning {
        Some(r) => opt_str_view(r.default_effort) == Some("xhigh"@) || opt_str_view(
            r.default_effort,
        ) == Some("max"@) || (match r.thinking_budget {
            Some(b) => at_least(b.max_tokens, 65_536),
            None => false,
        }),
        None => false,
    })
}

pub open spec fn long_reasoner_name(model: Seq<char>) -> bool {
    let n = lower_seq(trim(model));
    contains_seq(n, "kimi-k3"@) || contains_seq(n, "qwen3.8-max"@) || contains_seq(
        n,
        "qwen3.8_max"@,
    )
}

pub open spec fn policy_for(
    provider: Option<ProviderType>,
    model: Seq<char>,
    limits: Option<ModelLimits>,
    reasoning: Option<ReasoningCapability>,
) -> ModelProgressPolicy {
    ModelProgressPolicy {
        hosted_tool_idle_deadline_ms: HOSTED_TOOL_IDLE_DEADLINE_MS,
        connect_deadline_ms: if provider == Some(ProviderType::Ollama) || provider == Some(
            ProviderType::LmStudio,
        ) {
            LOCAL_MODEL_CONNECT_DEADLINE_MS
        } else if catalog_long_reasoner(limits, reasoning) || long_reasoner_name(model) {
            LONG_REASONER_CONNECT_DEADLINE_MS
        } else {
            DEFAULT_CONNECT_DEADLINE_MS
        },
    }
}

fn opt_eq_str(o: &Option<String>, s: &str) -> (b: bool)
    ensures
        b == (crate::llm::opt_view(*o) == Some(s@)),
{
    match o {
        Some(v) => {
            let a = chars_of(v.as_str());
            let c = chars_of(s);
            crate::text::chars_eq(a.as_slice(), c.as_slice())
        },
        None => false,
    }
}

impl ModelProgressPolicy {
    /// The deadlines for a model; `limits` and `reasoning` are what the model
    /// catalog declares for it (`None` when unlisted or the provider is
    /// unknown). Local runtimes get the longest connection deadline, long
    /// reasoners the shortest.
    pub fn for_model(
        provider: Option<ProviderType>,
        model: &str,
        route: AgentRouteKind,
        has_executable_tools: bool,
        limits: Option<ModelLimits>,
        reasoning: &Option<ReasoningCapability>,
    ) -> (p: ModelProgressPolicy)
        ensures
            p == policy_for(provider, model@, limits, *reasoning),
    {
        let capability_long = (match limits {
            Some(l) => (match l.context_tokens {
                Some(t) => t >= 500_000,
                None => false,
            }) || (match l.max_output_tokens {
                Some(t) => t >= 65_536,
                None => false,
            }),
            None => false,
        }) || (match reasoning {
            Some(r) => opt_eq_str(&r.default_effort, "xhigh") || opt_eq_str(
                &r.default_effort,
                "max",
            ) || (match r.thinking_budget {
                Some(b) => match b.max_tokens {
                    Some(t) => t >= 65_536,
                    None => false,
                },
                None => false,
            }),
            None => false,
        });
        let chars = chars_of(model);
        let t = trim_chars(chars.as_slice());
        let normalized = lower_chars(t.as_slice());
        let n = normalized.as_slice();
        let long_reasoner = capability_long || contains_chars(n, chars_of("kimi-k3").as_slice())
            || contains_chars(n, chars_of("qwen3.8-max").as_slice()) || contains_chars(
            n,
            chars_of("qwen3.8_max").as_slice(),
        );
        let local = match provider {
            Some(ProviderType::Ollama) | Some(ProviderType::LmStudio) => true,
            _ => false,
        };
        ModelProgressPolicy {
            hosted_tool_idle_deadline_ms: HOSTED_TOOL_IDLE_DEADLINE_MS,
            connect_deadline_ms: if local {
                LOCAL_MODEL_CONNECT_DEADLINE_MS
            } else if long_reasoner {
                LONG_REASONER_CONNECT_DEADLINE_MS
            } else {
                DEFAULT_CONNECT_DEADLINE_MS
            },
        }
    }
}

/// Request-side reasoning controls for a recovery request.
#[derive(Debug, Clone, PartialEq, Eq)]
pub struct ModelProgressRecoveryControls {
    pub reasoning_enabled: Option<bool>,
    pub reasoning_effort: Option<ReasoningEffort>,
    pub thinking_budget: Option<u32>,
    pub description: &'static str,
}

/// The weakest effort level that parses and is not "none".
pub open spec fn weakest_effort(levels: Seq<Seq<char>>) -> Option<ReasoningEffort>
    decreases levels.len(),
{
    if levels.len() == 0 {
        None
    } else {
        match effort_from_wire(levels[0]) {
            Some(e) => if e != ReasoningEffort::Disabled {
                Some(e)
            } else {
                weakest_effort(levels.drop_first())
            },
            None => weakest_effort(levels.drop_first()),
        }
    }
}

pub open spec fn lists_level(levels: Seq<Seq<char>>, level: Seq<char>) -> bool {
    exists|i: int| 0 <= i < levels.len() && levels[i] == level
}

/// The controls of a recovery request: reasoning off where the model allows
/// it (with the provider's explicit "none" effort on OpenRouter, and a zero
/// budget where the catalog allows one), else the weakest supported effort.
pub open spec fn recovery_controls_spec(
    provider: Option<ProviderType>,
    reasoning: Option<ReasoningCapability>,
) -> (Option<bool>, Option<ReasoningEffort>, Option<u32>, Seq<char>) {
    match reasoning {
        None => (Some(false), None, None, "reasoning disabled"@),
        Some(r) => if opt_str_view(r.mode) != Some("always"@) {
            (
                Some(false),
                if provider == Some(ProviderType::OpenRouter) && lists_level(
                    level_views(r.effort_levels@),
                    "none"@,
                ) {
                    Some(ReasoningEffort::Disabled)
                } else {
                    None
                },
                match r.thinking_budget {
                    Some(b) => if b.enabled && b.allow_zero == Some(true) {
                        Some(0u32)
                    } else {
                        None
                    },
                    None => None,
                },
                "reasoning disabled"@,
            )
        } else {
            let effort = weakest_effort(level_views(r.effort_levels@));
            (
                Some(true),
                effort,
                None,
                if effort == Some(ReasoningEffort::Minimal) || effort == Some(ReasoningEffort::Low) {
                    "reasoning reduced to the lowest supported effort"@
                } else {
                    "always-on reasoning reduced to the lowest supported effort"@
                },
            )
        },
    }
}

pub open spec fn controls_view(c: ModelProgressRecoveryControls) -> (Option<bool>, Option<ReasoningEffort>, Option<u32>, Seq<char>) {
    (c.reasoning_enabled, c.reasoning_effort, c.thinking_budget, c.description@)
}

fn levels_contain(levels: &Vec<String>, level: &str) -> (b: bool)
    ensures
        b == lists_level(level_views(levels@), level@),
{
    let target = chars_of(level);
    let mut i: usize = 0;
    while i < levels.len()
        invariant
            i <= levels.len(),
            target@ == level@,
            forall|k: int| 0 <= k < i ==> level_views(levels@)[k] != level@,
        decreases levels.len() - i,
    {
        let l = chars_of(levels[i].as_str());
        if crate::text::chars_eq(l.as_slice(), target.as_slice()) {
            assert(level_views(levels@)[i as int] == level@);
            return true;
        }
        i = i + 1;
    }
    false
}

fn weakest_effort_of(levels: &Vec<String>) -> (e: Option<ReasoningEffort>)
    ensures
        e == weakest_effort(level_views(levels@)),
{
    let ghost views = level_views(levels@);
    let mut i: usize = 0;
    assert(views.skip(0) =~= views);
    while i < levels.len()
        invariant
            i <= levels.len(),
            views == level_views(levels@),
            weakest_effort(views) == weakest_effort(views.skip(i as int)),
        decreases levels.len() - i,
    {
        assert(views.skip(i as int)[0] == levels@[i as int]@);
        assert(views.skip(i as int).drop_first() =~= views.skip(i + 1));
        match ReasoningEffort::from_wire(levels[i].as_str()) {
            Some(e) => {
                if e != ReasoningEffort::Disabled {
                    return Some(e);
                }
            },
            None => {},
        }
        i = i + 1;
    }
    assert(views.skip(i as int) =~= Seq::<Seq<char>>::empty());
    None
}

/// Request-side controls used by explicit user recovery and replay-safety
/// recovery, given the catalog's reasoning capability of the model. They
/// are never applied merely because an active stream is slow.
pub fn recovery_controls(provider: Option<ProviderType>, reasoning: &Option<ReasoningCapability>) -> (c:
    ModelProgressRecoveryControls)
    ensures
        controls_view(c) == recovery_controls_spec(provider, *reasoning),
{
    match reasoning {
        None => ModelProgressRecoveryControls {
            reasoning_enabled: Some(false),
            reasoning_effort: None,
            thinking_budget: None,
            description: "reasoning disabled",
        },
        Some(r) => {
            if !opt_eq_str(&r.mode, "always") {
                let open_router = match provider {
                    Some(ProviderType::OpenRouter) => true,
                    _ => false,
                };
                let disabled_effort = if open_router && levels_contain(&r.effort_levels, "none") {
                    Some(ReasoningEffort::Disabled)
                } else {
                    None
                };
                let budget = match r.thinking_budget {
                    Some(b) => if b.enabled && b.allow_zero == Some(true) {
                        Some(0u32)
                    } else {
                        None
                    },
                    None => None,
                };
                return ModelProgressRecoveryControls {
                    reasoning_enabled: Some(false),
                    reasoning_effort: disabled_effort,
                    thinking_budget: budget,
                    description: "reasoning disabled",
                };
            }
            let effort = weakest_effort_of(&r.effort_levels);
            let reduced = match effort {
                Some(ReasoningEffort::Minimal) | Some(ReasoningEffort::Low) => true,
                _ => false,
            };
            ModelProgressRecoveryControls {
                reasoning_enabled: Some(true),
                reasoning_effort: effort,
                thinking_budget: None,
                description: if reduced {
                    "reasoning reduced to the lowest supported effort"
                } else {
                    "always-on reasoning reduced to the lowest supported effort"
                },
            }
        },
    }
}

/// Controls for continuing a real output limit: DeepSeek models that offer
/// a low effort keep reasoning on at that effort, so the same-turn reasoning
/// replay stays valid; otherwise the recovery controls. `reasoning` is the
/// catalog's reasoning capability of the model.
pub open spec fn continuation_controls_spec(
    provider: Option<ProviderType>,
    reasoning: Option<ReasoningCapability>,
) -> (Option<bool>, Option<ReasoningEffort>, Option<u32>, Seq<char>) {
    if provider == Some(ProviderType::DeepSeek) && (match reasoning {
        Some(r) => lists_level(level_views(r.effort_levels@), "low"@),
        None => false,
    }) {
        (
            Some(true),
            Some(ReasoningEffort::Low),
            None,
            "reasoning reduced while preserving native continuation state"@,
        )
    } else {
        recovery_controls_spec(provider, reasoning)
    }
}

pub fn continuation_controls(provider: Option<ProviderType>, reasoning: &Option<ReasoningCapability>) -> (c:
    ModelProgressRecoveryControls)
    ensures
        controls_view(c) == continuation_controls_spec(provider, *reasoning),
{
    let deepseek = match provider {
        Some(ProviderType::DeepSeek) => true,
        _ => false,
    };
    if deepseek {
        let offers_low = match reasoning {
            Some(r) => levels_contain(&r.effort_levels, "low"),
            None => false,
        };
        if offers_low {
            return ModelProgressRecoveryControls {
                reasoning_enabled: Some(true),
                reasoning_effort: Some(ReasoningEffort::Low),
                thinking_budget: None,
                description: "reasoning reduced while preserving native continuation state",
            };
        }
    }
    recovery_controls(provider, reasoning)
}

/// What to do when the watchdog's deadline passes.
#[derive(Debug, Clone, Copy, PartialEq, Eq, Structural)]
pub enum ModelProgressDeadlineAction {
    StopConnecting,
    StopHostedTool,
}

/// Where a model request is.
#[derive(Debug, Clone, Copy, PartialEq, Eq, Structural)]
pub enum ModelProgressPhase {
    Connecting,
    Active,
    HostedTool,
    Complete,
}

/// Deadlines of a running model request.
#[derive(Debug, Clone, Copy, PartialEq, Eq)]
pub struct ModelProgressWatchdog {
    policy: ModelProgressPolicy,
    deadline: Option<u64>,
    phase: ModelProgressPhase,
    hosted_tool_hard_deadline: Option<u64>,
}

pub open spec fn add_ms(now: u64, d: u64) -> u64 {
    if now as int + d as int > u64::MAX {
        u64::MAX
    } else {
        (now + d) as u64
    }
}

/// The watchdog's observable state.
pub struct WatchdogView {
    pub policy: ModelProgressPolicy,
    pub deadline: Option<u64>,
    pub phase: ModelProgressPhase,
    pub hosted_tool_hard_deadline: Option<u64>,
}

impl View for ModelProgressWatchdog {
    type V = WatchdogView;

    closed spec fn view(&self) -> WatchdogView {
        WatchdogView {
            policy: self.policy,
            deadline: self.deadline,
            phase: self.phase,
            hosted_tool_hard_deadline: self.hosted_tool_hard_deadline,
        }
    }
}

/// A deadline is pending exactly while connecting or running a hosted tool.
pub open spec fn watchdog_wf(w: WatchdogView) -> bool {
    (w.deadline is Some) <==> (w.phase == ModelProgressPhase::Connecting || w.phase
        == ModelProgressPhase::HostedTool)
}

impl ModelProgressWatchdog {
    /// A watchdog that starts connecting at `now_ms`.
    pub fn with_policy(policy: ModelProgressPolicy, now_ms: u64) -> (w: ModelProgressWatchdog)
        ensures
            w@ == (WatchdogView {
                policy,
                deadline: Some(add_ms(now_ms, policy.connect_deadline_ms)),
                phase: ModelProgressPhase::Connecting,
                hosted_tool_hard_deadline: None,
            }),
            watchdog_wf(w@),
    {
        ModelProgressWatchdog {
            policy,
            deadline: Some(now_ms.saturating_add(policy.connect_deadline_ms)),
            phase: ModelProgressPhase::Connecting,
            hosted_tool_hard_deadline: None,
        }
    }

    pub fn deadline(&self) -> (d: Option<u64>)
        ensures
            d == self@.deadline,
    {
        self.deadline
    }

    /// The stream opened: the connection deadline no longer applies.
    pub fn arm(&mut self)
        ensures
            final(self)@ == (if old(self)@.phase == ModelProgressPhase::Connecting {
                WatchdogView {
                    phase: ModelProgressPhase::Active,
                    deadline: None,
                    ..old(self)@
                }
            } else {
                old(self)@
            }),
            watchdog_wf(old(self)@) ==> watchdog_wf(final(self)@),
    {
        if self.phase == ModelProgressPhase::Connecting {
            self.phase = ModelProgressPhase::Active;
            self.deadline = None;
        }
    }

    /// A new attempt starts connecting at `now_ms`.
    pub fn reset_for_new_attempt(&mut self, now_ms: u64)
        ensures
            final(self)@ == (WatchdogView {
                policy: old(self)@.policy,
                deadline: Some(add_ms(now_ms, old(self)@.policy.connect_deadline_ms)),
                phase: ModelProgressPhase::Connecting,
                hosted_tool_hard_deadline: None,
            }),
            watchdog_wf(final(self)@),
    {
        self.phase = ModelProgressPhase::Connecting;
        self.deadline = Some(now_ms.saturating_add(self.policy.connect_deadline_ms));
        self.hosted_tool_hard_deadline = None;
    }

    pub fn reset_for_context_retry(&mut self, now_ms: u64)
        ensures
            final(self)@ == (WatchdogView {
                policy: old(self)@.policy,
                deadline: Some(add_ms(now_ms, old(self)@.policy.connect_deadline_ms)),
                phase: ModelProgressPhase::Connecting,
                hosted_tool_hard_deadline: None,
            }),
            watchdog_wf(final(self)@),
    {
        self.reset_for_new_attempt(now_ms);
    }

    /// Answer text arrived.
    pub fn observe_answer_progress(&mut self)
        ensures
            final(self)@ == stream_activity(old(self)@),
            watchdog_wf(old(self)@) ==> watchdog_wf(final(self)@),
    {
        self.observe_stream_activity();
    }

    /// Tool-call arguments arrived.
    pub fn observe_tool_call_progress(&mut self)
        ensures
            final(self)@ == stream_activity(old(self)@),
            watchdog_wf(old(self)@) ==> watchdog_wf(final(self)@),
    {
        self.observe_stream_activity();
    }

    fn observe_stream_activity(&mut self)
        ensures
            final(self)@ == stream_activity(old(self)@),
            watchdog_wf(old(self)@) ==> watchdog_wf(final(self)@),
    {
        if self.phase != ModelProgressPhase::Complete {
            self.phase = ModelProgressPhase::Active;
            self.deadline = None;
            self.hosted_tool_hard_deadline = None;
        }
    }

    /// A provider-hosted tool reported progress at `now_ms`: the idle deadline
    /// restarts, but never beyond the absolute deadline set by the tool's
    /// first report.
    pub fn observe_hosted_tool_progress(&mut self, now_ms: u64)
        ensures
            final(self)@ == hosted_tool_progress(old(self)@, now_ms),
            watchdog_wf(final(self)@),
    {
        let hard = match self.hosted_tool_hard_deadline {
            Some(h) => h,
            None => now_ms.saturating_add(HOSTED_TOOL_HARD_DEADLINE_MS),
        };
        self.hosted_tool_hard_deadline = Some(hard);
        self.phase = ModelProgressPhase::HostedTool;
        let idle = now_ms.saturating_add(self.policy.hosted_tool_idle_deadline_ms);
        self.deadline = Some(
            if idle <= hard {
                idle
            } else {
                hard
            },
        );
    }

    pub fn complete(&mut self)
        ensures
            final(self)@ == (WatchdogView {
                phase: ModelProgressPhase::Complete,
                deadline: None,
                hosted_tool_hard_deadline: None,
                ..old(self)@
            }),
            watchdog_wf(final(self)@),
    {
        self.phase = ModelProgressPhase::Complete;
        self.deadline = None;
        self.hosted_tool_hard_deadline = None;
    }

    /// What to stop when the deadline passes; only a watchdog with a pending
    /// deadline has one.
    pub fn on_deadline(&self) -> (a: ModelProgressDeadlineAction)
        requires
            watchdog_wf(self@),
            self@.deadline is Some,
        ensures
            a == (if self@.phase == ModelProgressPhase::Connecting {
                ModelProgressDeadlineAction::StopConnecting
            } else {
                ModelProgressDeadlineAction::StopHostedTool
            }),
    {
        match self.phase {
            ModelProgressPhase::Connecting => ModelProgressDeadlineAction::StopConnecting,
            _ => ModelProgressDeadlineAction::StopHostedTool,
        }
    }
}

pub open spec fn stream_activity(w: WatchdogView) -> WatchdogView {
    if w.phase != ModelProgressPhase::Complete {
        WatchdogView {
            phase: ModelProgressPhase::Active,
            deadline: None,
            hosted_tool_hard_deadline: None,
            ..w
        }
    } else {
        w
    }
}

pub open spec fn hosted_tool_progress(w: WatchdogView, now_ms: u64) -> WatchdogView {
    let hard = match w.hosted_tool_hard_deadline {
        Some(h) => h,
        None => add_ms(now_ms, HOSTED_TOOL_HARD_DEADLINE_MS),
    };
    let idle = add_ms(now_ms, w.policy.hosted_tool_idle_deadline_ms);
    WatchdogView {
        phase: ModelProgressPhase::HostedTool,
        deadline: Some(
            if idle <= hard {
                idle
            } else {
                hard
            },
        ),
        hosted_tool_hard_deadline: Some(hard),
        ..w
    }
}

/// However often a hosted tool reports progress, its deadline never passes
/// the absolute deadline fixed by its first report.
pub proof fn law_hosted_tool_heartbeats_never_extend_the_hard_deadline(
    w: WatchdogView,
    first_ms: u64,
    later_ms: u64,
)
    requires
        w.hosted_tool_hard_deadline is None,
    ensures
        ({
            let after_first = hosted_tool_progress(w, first_ms);
            let after_later = hosted_tool_progress(after_first, later_ms);
            &&& after_later.hosted_tool_hard_deadline == after_first.hosted_tool_hard_deadline
            &&& after_later.deadline.unwrap() <= add_ms(first_ms, HOSTED_TOOL_HARD_DEADLINE_MS)
        }),
{
}

/// Once the stream is active, answer and tool-call deltas never set a
/// deadline again.
pub proof fn law_active_streams_have_no_semantic_deadline(w: WatchdogView)
    requires
        w.phase == ModelProgressPhase::Active,
    ensures
        stream_activity(w).deadline is None,
        stream_activity(stream_activity(w)).deadline is None,
{
}

} // verus!
