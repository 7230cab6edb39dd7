//! Provider-aware prompt layout decisions for model requests.

use vstd::prelude::*;

use crate::llm::ProviderType;
use crate::power_mode::opt_view;
use crate::text::{chars_are_blank, chars_of, contains_chars, contains_seq, is_blank, lower_chars, lower_seq};

verus! {

/// Which prompt parts a request carries and where volatile context goes.
#[derive(Debug, Clone, Copy, PartialEq, Eq, Structural)]
pub struct PromptLayout {
    pub include_skill_system_prompt: bool,
    pub include_turn_scaffolding_system_prompts: bool,
    pub allow_dynamic_tool_visibility: bool,
    pub append_volatile_system_prompt_to_tail: bool,
}

/// Providers that cache an exact request prefix, and DeepSeek models on any
/// route, keep volatile context at the tail.
pub open spec fn implicit_prefix_cache(provider_type: Option<ProviderType>, model: Option<Seq<char>>) -> bool {
    (match provider_type {
        Some(ProviderType::OpenAi) | Some(ProviderType::AzureOpenAi) | Some(ProviderType::Qwen)
        | Some(ProviderType::OpenRouter) | Some(ProviderType::DeepSeek) => true,
        _ => false,
    }) || (match model {
        Some(m) => contains_seq(lower_seq(m), "deepseek"@),
        None => false,
    })
}

pub fn uses_implicit_prefix_cache(provider_type: Option<ProviderType>, model: Option<&str>) -> (b: bool)
    ensures
        b == implicit_prefix_cache(provider_type, opt_view(model)),
{
    let by_provider = match provider_type {
        Some(ProviderType::OpenAi) | Some(ProviderType::AzureOpenAi) | Some(ProviderType::Qwen)
        | Some(ProviderType::OpenRouter) | Some(ProviderType::DeepSeek) => true,
        _ => false,
    };
    if by_provider {
        return true;
    }
    match model {
        Some(m) => {
            let chars = chars_of(m);
            let lowered = lower_chars(chars.as_slice());
            let needle = chars_of("deepseek");
            contains_chars(lowered.as_slice(), needle.as_slice())
        },
        None => false,
    }
}

pub open spec fn layout_for(provider_type: Option<ProviderType>, model: Option<Seq<char>>) -> PromptLayout {
    PromptLayout {
        include_skill_system_prompt: true,
        include_turn_scaffolding_system_prompts: true,
        allow_dynamic_tool_visibility: true,
        append_volatile_system_prompt_to_tail: implicit_prefix_cache(provider_type, model),
    }
}

impl PromptLayout {
    /// The layout for a provider whatever the model.
    pub fn for_provider(provider_type: Option<ProviderType>) -> (l: PromptLayout)
        ensures
            l == layout_for(provider_type, None),
    {
        PromptLayout::for_request(provider_type, None)
    }

    /// The layout for a provider and model: everything included, with
    /// volatile context at the tail exactly when the route caches an implicit
    /// prefix.
    pub fn for_request(provider_type: Option<ProviderType>, model: Option<&str>) -> (l: PromptLayout)
        ensures
            l == layout_for(provider_type, opt_view(model)),
    {
        if uses_implicit_prefix_cache(provider_type, model) {
            return PromptLayout {
                include_skill_system_prompt: true,
                include_turn_scaffolding_system_prompts: true,
                allow_dynamic_tool_visibility: true,
                append_volatile_system_prompt_to_tail: true,
            };
        }
        PromptLayout {
            include_skill_system_prompt: true,
            include_turn_scaffolding_system_prompts: true,
            allow_dynamic_tool_visibility: true,
            append_volatile_system_prompt_to_tail: false,
        }
    }

    pub fn effective_dynamic_tool_visibility(self, configured: bool) -> (b: bool)
        ensures
            b == (configured && self.allow_dynamic_tool_visibility),
    {
        configured && self.allow_dynamic_tool_visibility
    }
}

pub const DYNAMIC_TOOL_VISIBILITY_PROMPT: &'static str = "## Dynamic Tool Discovery\nSome enabled tools may be hidden from the current model step to keep context small. `tool_search` is the resident discovery tool. If the task needs a capability and the exact tool is not visible, call `tool_search` with the capability or tool-name fragment before using a nearby substitute. After `tool_search` returns, use the activated matching tool on the next model step. Do not claim an enabled capability is unavailable until `tool_search` fails or returns no match.";

/// The prompt section that explains deferred tools and `tool_search`.
pub fn dynamic_tool_visibility_prompt() -> (s: &'static str)
    ensures
        s@ == DYNAMIC_TOOL_VISIBILITY_PROMPT@,
{
    DYNAMIC_TOOL_VISIBILITY_PROMPT
}

/// The per-turn scaffolding sections: the route section (unless blank), the
/// task plan's section, and the tool-discovery section when asked for; none
/// when the layout leaves scaffolding out.
pub open spec fn scaffolding_sections(
    route_section: Seq<char>,
    task_plan_section: Seq<char>,
    include_dynamic_tool_discovery: bool,
    layout: PromptLayout,
) -> Seq<Seq<char>> {
    if !layout.include_turn_scaffolding_system_prompts {
        Seq::empty()
    } else {
        let route = if is_blank(route_section) {
            Seq::empty()
        } else {
            seq![route_section]
        };
        let discovery = if include_dynamic_tool_discovery {
            seq![DYNAMIC_TOOL_VISIBILITY_PROMPT@]
        } else {
            Seq::empty()
        };
        route + seq![task_plan_section] + discovery
    }
}

pub open spec fn string_views(v: Seq<String>) -> Seq<Seq<char>> {
    v.map_values(|s: String| s@)
}

/// Scaffolding sections of a turn; `task_plan_section` is the active task
/// plan rendered as a prompt section.
pub fn turn_scaffolding_sections(
    route_prompt_section: &str,
    task_plan_section: &str,
    include_dynamic_tool_discovery: bool,
    layout: PromptLayout,
) -> (r: Vec<String>)
    ensures
        string_views(r@) == scaffolding_sections(
            route_prompt_section@,
            task_plan_section@,
            include_dynamic_tool_discovery,
            layout,
        ),
{
    let mut sections: Vec<String> = Vec::new();
    if !layout.include_turn_scaffolding_system_prompts {
        assert(string_views(sections@) =~= Seq::<Seq<char>>::empty());
        return sections;
    }
    let route_chars = chars_of(route_prompt_section);
    if !chars_are_blank(route_chars.as_slice()) {
        sections.push(String::from_str(route_prompt_section));
    }
    sections.push(String::from_str(task_plan_section));
    if include_dynamic_tool_discovery {
        sections.push(String::from_str(dynamic_tool_visibility_prompt()));
    }
    assert(string_views(sections@) =~= scaffolding_sections(
        route_prompt_section@,
        task_plan_section@,
        include_dynamic_tool_discovery,
        layout,
    ));
    sections
}

} // verus!
