//! Output budget of one provider sample, with the authority it rests on.

use vstd::prelude::*;

use crate::llm::ProviderType;
use crate::model_progress::ModelLimits;
use crate::text::{chars_of, decimal, decimal_string, lower_chars, lower_seq, trim, trim_chars};

verus! {

pub const FALLBACK_AGENT_RESPONSE_TOKENS: u32 = 16_384;

pub const FALLBACK_DEEPSEEK_RESPONSE_TOKENS: u32 = 32_768;

/// Where the requested output budget comes from.
#[derive(Debug, Clone, Copy, PartialEq, Eq, Structural)]
pub enum OutputBudgetAuthority {
    SavedExplicitOverride,
    VerifiedCatalogCapability,
    AutomaticFallbackReserve,
}

impl OutputBudgetAuthority {
    pub open spec fn label_text(self) -> Seq<char> {
        match self {
            OutputBudgetAuthority::SavedExplicitOverride => "saved explicit per-request setting"@,
            OutputBudgetAuthority::VerifiedCatalogCapability => "verified model catalog capability"@,
            OutputBudgetAuthority::AutomaticFallbackReserve => "unknown-model automatic fallback reserve"@,
        }
    }

    pub fn label(self) -> (s: &'static str)
        ensures
            s@ == self.label_text(),
    {
        match self {
            OutputBudgetAuthority::SavedExplicitOverride => "saved explicit per-request setting",
            OutputBudgetAuthority::VerifiedCatalogCapability => "verified model catalog capability",
            OutputBudgetAuthority::AutomaticFallbackReserve => "unknown-model automatic fallback reserve",
        }
    }
}

/// The output budget of one sample.
#[derive(Debug, Clone, Copy, PartialEq, Eq, Structural)]
pub struct OutputBudgetPlan {
    pub requested_tokens: u32,
    pub effective_tokens: u32,
    pub authority: OutputBudgetAuthority,
    pub catalog_cap: Option<u32>,
    pub context_cap: Option<u32>,
}

/// `{:?}` of an `Option<u32>`.
pub open spec fn opt_debug(o: Option<u32>) -> Seq<char> {
    match o {
        Some(v) => "Some("@ + decimal(v as nat) + ")"@,
        None => "None"@,
    }
}

fn opt_debug_string(o: Option<u32>) -> (s: String)
    ensures
        s@ == opt_debug(o),
{
    match o {
        Some(v) => {
            let mut s = String::new();
            s.append("Some(");
            let d = decimal_string(v as u64);
            s.append(d.as_str());
            s.append(")");
            s
        },
        None => {
            let mut s = String::new();
            s.append("None");
            s
        },
    }
}

pub open spec fn clamp(v: u32, lo: u32, hi: u32) -> u32 {
    if v < lo {
        lo
    } else if v > hi {
        hi
    } else {
        v
    }
}

impl OutputBudgetPlan {
    pub open spec fn diagnostic_text(self) -> Seq<char> {
        "per-request output budget: requested="@ + decimal(self.requested_tokens as nat)
            + ", effective="@ + decimal(self.effective_tokens as nat) + ", authority="@
            + self.authority.label_text() + ", catalog_cap="@ + opt_debug(self.catalog_cap)
            + ", context_cap="@ + opt_debug(self.context_cap)
    }

    /// One line that says how the budget was chosen.
    pub fn diagnostic(self) -> (s: String)
        ensures
            s@ == self.diagnostic_text(),
    {
        let mut s = String::new();
        s.append("per-request output budget: requested=");
        let requested = decimal_string(self.requested_tokens as u64);
        s.append(requested.as_str());
        s.append(", effective=");
        let effective = decimal_string(self.effective_tokens as u64);
        s.append(effective.as_str());
        s.append(", authority=");
        s.append(self.authority.label());
        s.append(", catalog_cap=");
        let catalog = opt_debug_string(self.catalog_cap);
        s.append(catalog.as_str());
        s.append(", context_cap=");
        let context = opt_debug_string(self.context_cap);
        s.append(context.as_str());
        s
    }

    /// Advisory chunk size for text tool arguments after a truncation:
    /// twice the step's cap, kept within 2 048 and 32 768.
    pub fn recommended_text_tool_chunk_chars(self, step_cap: u32) -> (n: u32)
        ensures
            n == clamp(
                if 2 * step_cap > u32::MAX {
                    u32::MAX
                } else {
                    (2 * step_cap) as u32
                },
                2_048,
                32_768,
            ),
    {
        let doubled = if step_cap > u32::MAX / 2 {
            u32::MAX
        } else {
            step_cap * 2
        };
        if doubled < 2_048 {
            2_048
        } else if doubled > 32_768 {
            32_768
        } else {
            doubled
        }
    }
}

/// `seg` names the DeepSeek family: `deepseek`, or `deepseek` followed by
/// `-`, `_` or `.` and more.
pub open spec fn deepseek_segment(seg: Seq<char>) -> bool {
    seg == "deepseek"@ || (seg.len() > 8 && seg.take(8) == "deepseek"@ && (seg[8] == '-' || seg[8]
        == '_' || seg[8] == '.'))
}

/// `s[i..j]` is a `/`-separated segment of `s`.
pub open spec fn is_slash_segment(s: Seq<char>, i: int, j: int) -> bool {
    &&& 0 <= i <= j <= s.len()
    &&& (i == 0 || s[i - 1] == '/')
    &&& (j == s.len() || s[j] == '/')
    &&& forall|k: int| i <= k < j ==> s[k] != '/'
}

/// Some `/`-separated segment of the trimmed, lower-cased model name names
/// the DeepSeek family.
pub open spec fn is_deepseek_family(model: Seq<char>) -> bool {
    let s = lower_seq(trim(model));
    exists|i: int, j: int| is_slash_segment(s, i, j) && deepseek_segment(#[trigger] s.subrange(i, j))
}

fn deepseek_segment_exec(s: &[char], i: usize, j: usize) -> (b: bool)
    requires
        i <= j <= s.len(),
    ensures
        b == deepseek_segment(s@.subrange(i as int, j as int)),
{
    let seg = crate::text::slice_chars(s, i, j);
    let name = chars_of("deepseek");
    proof {
        reveal_strlit("deepseek");
    }
    if crate::text::chars_eq(seg.as_slice(), name.as_slice()) {
        return true;
    }
    if seg.len() > 8 {
        let head = crate::text::slice_chars(seg.as_slice(), 0, 8);
        assert(head@ =~= seg@.take(8));
        if crate::text::chars_eq(head.as_slice(), name.as_slice()) {
            let c = seg[8];
            return c == '-' || c == '_' || c == '.';
        }
    }
    false
}

/// Whether a model name belongs to the DeepSeek family.
pub fn is_deepseek_model_family(model: &str) -> (b: bool)
    ensures
        b == is_deepseek_family(model@),
{
    let raw = chars_of(model);
    let trimmed = trim_chars(raw.as_slice());
    let s = lower_chars(trimmed.as_slice());
    let ghost sv = s@;
    let mut start: usize = 0;
    let mut k: usize = 0;
    while k < s.len()
        invariant
            sv == s@,
            sv == lower_seq(trim(model@)),
            start <= k <= s.len(),
            start == 0 || sv[start - 1] == '/',
            forall|q: int| start <= q < k ==> sv[q] != '/',
            forall|i: int, j: int|
                is_slash_segment(sv, i, j) && j < start ==> !deepseek_segment(
                    #[trigger] sv.subrange(i, j),
                ),
        decreases s.len() - k,
    {
        if s[k] == '/' {
            if deepseek_segment_exec(s.as_slice(), start, k) {
                assert(is_slash_segment(sv, start as int, k as int));
                return true;
            }
            proof {
                assert forall|i: int, j: int|
                    is_slash_segment(sv, i, j) && j < k + 1 implies !deepseek_segment(
                    #[trigger] sv.subrange(i, j),
                ) by {
                    if j >= start && j < k {
                        assert(sv[j] == '/');
                    }
                    if j == k {
                        if i < start {
                            assert(sv[start - 1] == '/');
                        }
                        if i > start {
                            assert(sv[i - 1] != '/');
                        }
                    }
                }
            }
            start = k + 1;
        }
        k = k + 1;
    }
    if deepseek_segment_exec(s.as_slice(), start, k) {
        assert(is_slash_segment(sv, start as int, k as int));
        return true;
    }
    proof {
        assert forall|i: int, j: int| is_slash_segment(sv, i, j) implies !deepseek_segment(
            #[trigger] sv.subrange(i, j),
        ) by {
            if j >= start && j < k {
                assert(sv[j] == '/');
            }
            if j == k {
                if i < start {
                    assert(sv[start - 1] == '/');
                }
                if i > start {
                    assert(sv[i - 1] != '/');
                }
            }
        }
    }
    false
}

/// The configuration that decides the output budget.
#[derive(Debug, Clone, Copy, PartialEq, Eq, Structural)]
pub struct OutputBudgetConfig {
    /// The saved per-request maximum, if any.
    pub max_tokens: Option<u32>,
    pub provider_type: Option<ProviderType>,
    /// The saved context window override, if any.
    pub context_window: Option<u32>,
    /// Whether the catalog's limits may be used for this route, when the
    /// host said so.
    pub catalog_limits_authoritative: Option<bool>,
    /// The context window resolved for the endpoint, if one was.
    pub context_window_resolution: Option<ContextWindowResolution>,
}

/// The context window resolved for an endpoint.
#[derive(Debug, Clone, Copy, PartialEq, Eq, Structural)]
pub struct ContextWindowResolution {
    /// The window comes from the model catalog.
    pub catalog_authority: bool,
    pub capacity_tokens: Option<u32>,
}

pub open spec fn to_u32(o: Option<u64>) -> Option<u32> {
    match o {
        Some(v) => if v <= u32::MAX {
            Some(v as u32)
        } else {
            None
        },
        None => None,
    }
}

pub open spec fn min_opt(v: u32, cap: Option<u32>) -> u32 {
    match cap {
        Some(c) => if c < v {
            c
        } else {
            v
        },
        None => v,
    }
}

/// The output budget of one provider sample. A saved maximum is
/// authoritative; otherwise the catalog's output limit, when the catalog
/// speaks for this route; otherwise a model-aware reserve. The result is
/// capped by the catalog's output limit and the context capacity (half of
/// it for automatic budgets, at least one token). `catalog_limits` are the
/// catalog's limits for the configured provider and this model.
pub open spec fn output_budget(config: OutputBudgetConfig, model: Seq<char>, catalog_limits: Option<ModelLimits>) -> OutputBudgetPlan {
    let automatic = config.max_tokens is None;
    let fallback = if config.provider_type == Some(ProviderType::DeepSeek) || is_deepseek_family(
        model,
    ) {
        FALLBACK_DEEPSEEK_RESPONSE_TOKENS
    } else {
        FALLBACK_AGENT_RESPONSE_TOKENS
    };
    let authoritative = match config.catalog_limits_authoritative {
        Some(a) => a,
        None => match config.context_window_resolution {
            None => true,
            Some(r) => r.catalog_authority,
        },
    };
    let limits = if authoritative && config.provider_type is Some {
        catalog_limits
    } else {
        None
    };
    let catalog_cap = match limits {
        Some(l) => to_u32(l.max_output_tokens),
        None => None,
    };
    let (requested, authority) = match (config.max_tokens, catalog_cap) {
        (Some(explicit), _) => (explicit, OutputBudgetAuthority::SavedExplicitOverride),
        (None, Some(catalog)) => (catalog, OutputBudgetAuthority::VerifiedCatalogCapability),
        (None, None) => (fallback, OutputBudgetAuthority::AutomaticFallbackReserve),
    };
    let resolved = match config.context_window_resolution {
        Some(r) => r.capacity_tokens,
        None => None,
    };
    let capacity = match resolved {
        Some(c) => Some(c),
        None => match config.context_window {
            Some(w) => Some(w),
            None => match limits {
                Some(l) => to_u32(l.context_tokens),
                None => None,
            },
        },
    };
    let context_cap = match capacity {
        Some(c) => Some(
            if automatic {
                if c / 2 > 1 {
                    (c / 2) as u32
                } else {
                    1u32
                }
            } else if c > 1 {
                c
            } else {
                1u32
            },
        ),
        None => None,
    };
    OutputBudgetPlan {
        requested_tokens: requested,
        effective_tokens: min_opt(min_opt(requested, catalog_cap), context_cap),
        authority,
        catalog_cap,
        context_cap,
    }
}

fn to_u32_exec(o: Option<u64>) -> (r: Option<u32>)
    ensures
        r == to_u32(o),
{
    match o {
        Some(v) => if v <= u32::MAX as u64 {
            Some(v as u32)
        } else {
            None
        },
        None => None,
    }
}

/// Resolves the output budget of one provider sample.
pub fn resolved_output_budget(config: &OutputBudgetConfig, model: &str, catalog_limits: Option<ModelLimits>) -> (p: OutputBudgetPlan)
    ensures
        p == output_budget(*config, model@, catalog_limits),
{
    let automatic = config.max_tokens.is_none();
    let deepseek_provider = match config.provider_type {
        Some(ProviderType::DeepSeek) => true,
        _ => false,
    };
    let fallback = if deepseek_provider || is_deepseek_model_family(model) {
        FALLBACK_DEEPSEEK_RESPONSE_TOKENS
    } else {
        FALLBACK_AGENT_RESPONSE_TOKENS
    };
    let authoritative = match config.catalog_limits_authoritative {
        Some(a) => a,
        None => match config.context_window_resolution {
            None => true,
            Some(r) => r.catalog_authority,
        },
    };
    let limits = if authoritative && config.provider_type.is_some() {
        catalog_limits
    } else {
        None
    };
    let catalog_cap = match limits {
        Some(l) => to_u32_exec(l.max_output_tokens),
        None => None,
    };
    let (requested, authority) = match (config.max_tokens, catalog_cap) {
        (Some(explicit), _) => (explicit, OutputBudgetAuthority::SavedExplicitOverride),
        (None, Some(catalog)) => (catalog, OutputBudgetAuthority::VerifiedCatalogCapability),
        (None, None) => (fallback, OutputBudgetAuthority::AutomaticFallbackReserve),
    };
    let resolved = match config.context_window_resolution {
        Some(r) => r.capacity_tokens,
        None => None,
    };
    let capacity = match resolved {
        Some(c) => Some(c),
        None => match config.context_window {
            Some(w) => Some(w),
            None => match limits {
                Some(l) => to_u32_exec(l.context_tokens),
                None => None,
            },
        },
    };
    let context_cap = match capacity {
        Some(c) => Some(
            if automatic {
                if c / 2 > 1 {
                    c / 2
                } else {
                    1
                }
            } else if c > 1 {
                c
            } else {
                1
            },
        ),
        None => None,
    };
    let mut effective = requested;
    if let Some(c) = catalog_cap {
        if c < effective {
            effective = c;
        }
    }
    if let Some(c) = context_cap {
        if c < effective {
            effective = c;
        }
    }
    OutputBudgetPlan {
        requested_tokens: requested,
        effective_tokens: effective,
        authority,
        catalog_cap,
        context_cap,
    }
}

/// The effective output budget of one provider sample.
pub fn resolved_max_response_tokens(config: &OutputBudgetConfig, model: &str, catalog_limits: Option<ModelLimits>) -> (n: u32)
    ensures
        n == output_budget(*config, model@, catalog_limits).effective_tokens,
{
    resolved_output_budget(config, model, catalog_limits).effective_tokens
}

/// A saved maximum is authoritative; whatever the source, the effective
/// budget is the requested one, cut only by the catalog's output limit and
/// the context capacity, each of which it respects.
pub proof fn law_budget_is_requested_then_capped(config: OutputBudgetConfig, model: Seq<char>, catalog_limits: Option<ModelLimits>)
    ensures
        ({
            let plan = output_budget(config, model, catalog_limits);
            &&& config.max_tokens matches Some(n) ==> plan.requested_tokens == n
                && plan.authority == OutputBudgetAuthority::SavedExplicitOverride
            &&& plan.effective_tokens <= plan.requested_tokens
            &&& plan.catalog_cap matches Some(c) ==> plan.effective_tokens <= c
            &&& plan.context_cap matches Some(c) ==> plan.effective_tokens <= c
            &&& plan.effective_tokens == plan.requested_tokens || plan.catalog_cap == Some(
                plan.effective_tokens,
            ) || plan.context_cap == Some(plan.effective_tokens)
        }),
{
}

} // verus!
