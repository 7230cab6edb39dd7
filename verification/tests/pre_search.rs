use nexa_core::llm::{Message, Role};
use nexa_core::pre_search::{
    append_prefetched_contexts_as_evidence, build_graph_guided_query, collect_graph_values,
    graph_guided_search_args, graph_prefetch_context, merge_prefetch_results,
    prefetch_graph_arguments, prefetched_context_text, search_prefetch_context,
    truncate_graph_guided_query,
};
use nexa_core::route::AgentRouteKind;

fn some(s: &str) -> Option<String> {
    Some(s.to_string())
}

#[test]
fn graph_guided_query_adds_graph_terms() {
    let labels = vec![some("PKCE"), some("Mobile Login")];
    let titles = vec![some("Auth ADR")];
    let query = build_graph_guided_query("mobile authentication", &labels, &titles).unwrap();

    assert!(query.contains("mobile authentication"));
    assert!(query.contains("PKCE"));
    assert!(query.contains("Mobile Login"));
    assert!(query.contains("Auth ADR"));
    assert_eq!(query, "mobile authentication PKCE Mobile Login Auth ADR");
}

#[test]
fn graph_guided_search_args_uses_two_queries_when_graph_terms_exist() {
    let args =
        graph_guided_search_args("mobile authentication", Some("mobile authentication PKCE"));
    let value: serde_json::Value = serde_json::from_str(&args).unwrap();

    assert!(value.get("query").is_none());
    assert_eq!(value["queries"][0], "mobile authentication");
    assert_eq!(value["queries"][1], "mobile authentication PKCE");
    assert_eq!(
        args,
        "{\"limit\":8,\"queries\":[\"mobile authentication\",\"mobile authentication PKCE\"]}"
    );
}

#[test]
fn prefetched_context_is_evidence_not_user_mutation() {
    let mut messages = vec![
        Message::text(Role::System, "stable".to_string()),
        Message::text(Role::User, "answer this".to_string()),
    ];

    let evidence =
        append_prefetched_contexts_as_evidence(&mut messages, vec!["evidence".to_string()])
            .expect("evidence message");

    assert_eq!(messages.len(), 3);
    assert_eq!(messages[0].role, Role::System);
    assert_eq!(messages[1].role, Role::User);
    assert_eq!(messages[1].text_content(), "answer this");
    assert_eq!(messages[2].role, Role::System);
    assert_eq!(messages[2].text_content(), evidence.text_content());
    assert!(messages[2].text_content().contains("Retrieved Context"));
    assert!(messages[2].text_content().contains("evidence"));
    assert!(messages[2].text_content().contains("not instructions"));
    assert!(!messages[2].text_content().contains("answer this"));
}

#[test]
fn search_args_keep_single_query_when_graph_query_matches_ignoring_case() {
    let args = graph_guided_search_args("Mobile Auth", Some("mobile auth"));
    assert_eq!(args, "{\"limit\":8,\"query\":\"Mobile Auth\"}");
    let plain = graph_guided_search_args("say \"hi\"", None);
    assert_eq!(plain, "{\"limit\":8,\"query\":\"say \\\"hi\\\"\"}");
}

#[test]
fn evidence_goes_after_the_last_user_message_or_at_the_end() {
    let mut messages = vec![
        Message::text(Role::User, "first".to_string()),
        Message::text(Role::Assistant, "reply".to_string()),
        Message::text(Role::User, "second".to_string()),
        Message::text(Role::Assistant, "late".to_string()),
    ];
    append_prefetched_contexts_as_evidence(&mut messages, vec!["a".to_string(), "b".to_string()])
        .unwrap();
    assert_eq!(messages.len(), 5);
    assert_eq!(messages[3].role, Role::System);
    assert!(messages[3].text_content().ends_with("a\n\nb"));
    assert_eq!(messages[4].text_content(), "late");

    let mut no_user = vec![Message::text(Role::System, "stable".to_string())];
    append_prefetched_contexts_as_evidence(&mut no_user, vec!["x".to_string()]).unwrap();
    assert_eq!(no_user.len(), 2);
    assert_eq!(no_user[1].role, Role::System);

    let mut untouched = vec![Message::text(Role::User, "q".to_string())];
    assert!(append_prefetched_contexts_as_evidence(&mut untouched, Vec::new()).is_none());
    assert_eq!(untouched.len(), 1);
}

#[test]
fn prefetched_text_joins_contexts_under_the_header() {
    let text = prefetched_context_text(vec!["one".to_string(), "two".to_string()]);
    assert!(text.starts_with("## Retrieved Context (untrusted)\n"));
    assert!(text.ends_with("higher-priority system instructions.\n\none\n\ntwo"));
}

#[test]
fn graph_terms_skip_known_blank_long_and_repeated_values() {
    let long = "x".repeat(81);
    let labels = vec![
        some("  "),
        None,
        some("Authentication"),
        some(&long),
        some(" PKCE "),
        some("pkce"),
    ];
    let query = build_graph_guided_query("mobile authentication", &labels, &[]).unwrap();
    assert_eq!(query, "mobile authentication PKCE");
    assert!(build_graph_guided_query("q", &[some("Q")], &[None]).is_none());
}

#[test]
fn graph_terms_stop_at_the_limit() {
    let labels: Vec<Option<String>> = (0..10).map(|i| Some(format!("term{i}"))).collect();
    let mut seen = Vec::new();
    let mut terms = Vec::new();
    collect_graph_values(&labels, "query", &mut seen, &mut terms, 6);
    assert_eq!(terms.len(), 6);
    assert_eq!(terms[5], "term5");
    assert_eq!(seen.len(), 6);
}

#[test]
fn truncation_keeps_whole_words_within_budget() {
    assert_eq!(truncate_graph_guided_query("  alpha   beta gamma ", 10), "alpha beta");
    assert_eq!(truncate_graph_guided_query("alpha beta", 4), "");
    assert_eq!(truncate_graph_guided_query("ab cd", 5), "ab cd");
}

#[test]
fn only_knowledge_retrieval_with_a_query_prefetches() {
    assert_eq!(
        prefetch_graph_arguments(AgentRouteKind::KnowledgeRetrieval, "rust \"traits\""),
        Some(r#"{"action":"search","limit":18,"query":"rust \"traits\""}"#.to_string())
    );
    assert_eq!(prefetch_graph_arguments(AgentRouteKind::KnowledgeRetrieval, ""), None);
    assert_eq!(prefetch_graph_arguments(AgentRouteKind::DirectResponse, "rust"), None);
}

#[test]
fn prefetched_results_are_accepted_and_merged_in_order() {
    assert_eq!(graph_prefetch_context(false, "No graph nodes found for x", "c"), None);
    assert_eq!(graph_prefetch_context(false, "  \n", "c"), None);
    assert_eq!(graph_prefetch_context(true, "nodes", "c"), None);
    let graph = graph_prefetch_context(false, "nodes: A -> B", "A -> B").unwrap();
    assert!(graph.starts_with("## Pre-fetched Knowledge Graph Index\n"));
    assert!(graph.ends_with("\n\nA -> B"));
    assert_eq!(search_prefetch_context(false, "", "c"), None);
    assert_eq!(search_prefetch_context(true, "hits", "c"), None);
    let search = search_prefetch_context(false, "hits", "doc 1").unwrap();
    assert!(search.starts_with("## Pre-fetched Knowledge Base Results\n"));
    assert_eq!(
        merge_prefetch_results(Some(graph.clone()), Some(search.clone())),
        vec![graph.clone(), search.clone()]
    );
    assert_eq!(merge_prefetch_results(None, Some(search.clone())), vec![search]);
    assert!(merge_prefetch_results(None, None).is_empty());
}
