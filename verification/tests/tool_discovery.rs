use nexa_core::agent::merge_tool_definitions;
use nexa_core::llm::ToolDefinition;
use nexa_core::tool_discovery::{
    activate_tool_search_matches, activate_tool_search_matches_bounded, tool_search_payload,
    RegisteredTool, ToolCatalog, ToolSearchArtifacts,
};

fn definition(name: &str, description: &str, parameters: &str) -> ToolDefinition {
    ToolDefinition {
        name: name.to_string(),
        description: description.to_string(),
        parameters: parameters.to_string(),
    }
}

fn fake_search_docs() -> RegisteredTool {
    RegisteredTool {
        definition: definition(
            "mcp__fake_server__search_docs",
            "Searches fake MCP documents for test coverage.",
            "{\"type\":\"object\",\"properties\":{\"query\":{\"type\":\"string\"}},\"required\":[\"query\"]}",
        ),
        core: false,
        definition_tokens: 40,
    }
}

fn old_deferred_tool() -> RegisteredTool {
    RegisteredTool {
        definition: definition(
            "old_deferred_tool",
            "Older deferred capability",
            "{\"type\":\"object\"}",
        ),
        core: false,
        definition_tokens: 20,
    }
}

fn results(names: &[Option<&str>]) -> ToolSearchArtifacts {
    ToolSearchArtifacts {
        kind: Some("toolSearchResults".to_string()),
        matches: Some(names.iter().map(|n| n.map(|s| s.to_string())).collect()),
        nested: None,
    }
}

#[test]
fn tool_search_results_activate_hidden_runtime_tools() {
    let catalog = ToolCatalog { tools: vec![fake_search_docs()] };
    let mut tool_defs = Vec::new();
    let artifacts = results(&[Some("mcp__fake_server__search_docs"), Some("missing_tool")]);

    let activation = activate_tool_search_matches(&catalog, &mut tool_defs, Some(&artifacts), 0);

    assert_eq!(
        activation.activated,
        vec!["mcp__fake_server__search_docs".to_string()]
    );
    assert_eq!(activation.unknown, vec!["missing_tool".to_string()]);
    assert_eq!(tool_defs.len(), 1);
    assert_eq!(tool_defs[0].name, "mcp__fake_server__search_docs");
    assert!(activation.has_changes());
}

#[test]
fn tool_search_results_do_not_duplicate_already_visible_tools() {
    let catalog = ToolCatalog { tools: vec![fake_search_docs()] };
    let mut tool_defs = vec![fake_search_docs().definition];
    let artifacts = results(&[Some("mcp__fake_server__search_docs")]);

    let activation = activate_tool_search_matches(&catalog, &mut tool_defs, Some(&artifacts), 40);

    assert!(activation.activated.is_empty());
    assert_eq!(
        activation.already_available,
        vec!["mcp__fake_server__search_docs".to_string()]
    );
    assert_eq!(tool_defs.len(), 1);
    assert!(!activation.has_changes());
}

#[test]
fn a_full_surface_rotates_deferred_tools_but_keeps_resident_search() {
    let catalog = ToolCatalog { tools: vec![old_deferred_tool(), fake_search_docs()] };
    let old = old_deferred_tool().definition;
    let mut resident = old.clone();
    resident.name = "tool_search".into();
    let mut definitions = vec![resident, old];
    let artifacts = results(&[Some("mcp__fake_server__search_docs")]);
    let result = activate_tool_search_matches_bounded(
        &catalog,
        &mut definitions,
        Some(&artifacts),
        40,
        2,
        u32::MAX,
    );
    assert_eq!(result.activated, vec!["mcp__fake_server__search_docs"]);
    assert_eq!(result.evicted, vec!["old_deferred_tool"]);
    assert_eq!(definitions.len(), 2);
    assert!(definitions
        .iter()
        .any(|definition| definition.name == "tool_search"));
    // An oversized definition must not evict unrelated tools pointlessly.
    let before = definitions.clone();
    let reverse = results(&[Some("old_deferred_tool")]);
    let blocked = activate_tool_search_matches_bounded(
        &catalog,
        &mut definitions,
        Some(&reverse),
        60,
        2,
        1,
    );
    assert_eq!(blocked.capacity_limited, vec!["old_deferred_tool"]);
    assert_eq!(definitions.len(), before.len());
    assert!(blocked.evicted.is_empty());
}

#[test]
fn token_budget_rotates_the_latest_deferred_definition_first() {
    let third = RegisteredTool {
        definition: definition("b_tool", "third", "{}"),
        core: false,
        definition_tokens: 30,
    };
    let core = RegisteredTool {
        definition: definition("a_core", "core", "{}"),
        core: true,
        definition_tokens: 30,
    };
    let catalog = ToolCatalog {
        tools: vec![core.clone(), third.clone(), old_deferred_tool(), fake_search_docs()],
    };
    let mut defs = vec![core.definition, old_deferred_tool().definition, third.definition];
    let artifacts = results(&[Some("mcp__fake_server__search_docs"), None]);
    let r = activate_tool_search_matches_bounded(&catalog, &mut defs, Some(&artifacts), 80, 10, 100);
    // 80 + 40 > 100: the last deferred definition (b_tool, 30) goes; 50 + 40 fits.
    assert_eq!(r.evicted, vec!["b_tool"]);
    assert_eq!(r.activated, vec!["mcp__fake_server__search_docs"]);
    let names: Vec<&str> = defs.iter().map(|d| d.name.as_str()).collect();
    assert_eq!(names, vec!["a_core", "mcp__fake_server__search_docs", "old_deferred_tool"]);
}

#[test]
fn repeated_and_unnamed_matches_are_skipped() {
    let catalog = ToolCatalog { tools: vec![fake_search_docs()] };
    let mut defs = Vec::new();
    let artifacts = results(&[
        None,
        Some("mcp__fake_server__search_docs"),
        Some("mcp__fake_server__search_docs"),
    ]);
    let r = activate_tool_search_matches(&catalog, &mut defs, Some(&artifacts), 0);
    assert_eq!(r.activated.len(), 1);
    assert!(r.already_available.is_empty());
    assert_eq!(defs.len(), 1);
}

#[test]
fn search_payload_is_found_at_the_top_or_nested() {
    let nested = ToolSearchArtifacts {
        kind: Some("other".to_string()),
        matches: None,
        nested: Some(Box::new(results(&[Some("x")]))),
    };
    let payload = tool_search_payload(Some(&nested)).unwrap();
    assert_eq!(payload.matches.as_ref().unwrap().len(), 1);
    let neither = ToolSearchArtifacts { kind: None, matches: Some(Vec::new()), nested: None };
    assert!(tool_search_payload(Some(&neither)).is_none());
    assert!(tool_search_payload(None).is_none());

    let catalog = ToolCatalog { tools: vec![fake_search_docs()] };
    let mut defs = vec![old_deferred_tool().definition];
    let r = activate_tool_search_matches(&catalog, &mut defs, Some(&neither), 20);
    assert!(r.activated.is_empty() && r.unknown.is_empty());
    assert_eq!(defs.len(), 1);
}

#[test]
fn merged_definitions_keep_the_first_of_each_name_in_name_order() {
    let merged = merge_tool_definitions(
        vec![definition("zeta", "first", "{}"), definition("alpha", "a", "{}")],
        vec![definition("zeta", "second", "{}"), definition("beta", "b", "{}")],
    );
    let names: Vec<&str> = merged.iter().map(|d| d.name.as_str()).collect();
    assert_eq!(names, vec!["alpha", "beta", "zeta"]);
    assert_eq!(merged[2].description, "first");
}
