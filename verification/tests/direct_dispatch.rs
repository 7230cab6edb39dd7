use nexa_core::events::ToolRunStatus;
use nexa_core::direct_dispatch::{
    direct_dispatch_plan, direct_dispatch_result, DirectDispatchOutcome, DirectToolRun,
    classify_direct_request, dispatch_for_source, match_direct_pattern, DirectDispatch,
    DirectRequest, SourceRef,
};

fn dispatch(tool: &str, args: &str) -> Option<DirectDispatch> {
    Some(DirectDispatch { tool_name: tool.to_string(), arguments: args.to_string() })
}

fn sources() -> Vec<SourceRef> {
    vec![
        SourceRef { id: "src-1".to_string(), root_path: "/home/me/Notes".to_string() },
        SourceRef { id: "src-2".to_string(), root_path: "/home/me/Projects/Nexa".to_string() },
        SourceRef { id: "src-3".to_string(), root_path: "/data/notes-archive".to_string() },
    ]
}

#[test]
fn list_commands_dispatch_directly() {
    assert_eq!(match_direct_pattern("  Please list my sources?! ", &[]), dispatch("list_sources", "{}"));
    assert_eq!(match_direct_pattern("请显示数据源。", &[]), dispatch("list_sources", "{}"));
    assert_eq!(
        match_direct_pattern("Could you show playbooks please", &[]),
        dispatch("manage_playbook", r#"{"action":"list"}"#)
    );
    assert_eq!(match_direct_pattern("ソース一覧", &[]), dispatch("list_sources", "{}"));
}

#[test]
fn directory_commands_carry_a_json_path() {
    assert_eq!(
        match_direct_pattern(r#"ls "C:\Docs""#, &[]),
        dispatch("list_dir", r#"{"path":"c:\\docs"}"#)
    );
    assert_eq!(
        match_direct_pattern("list directory ./src", &[]),
        dispatch("list_dir", r#"{"path":"./src"}"#)
    );
    assert_eq!(match_direct_pattern("ls ''", &[]), None);
}

#[test]
fn source_names_resolve_only_when_unambiguous() {
    assert_eq!(
        classify_direct_request("List files in Nexa."),
        DirectRequest::SourceDocuments("nexa".to_string())
    );
    assert_eq!(
        match_direct_pattern("list files in nexa", &sources()),
        dispatch("list_documents", r#"{"source_id":"src-2"}"#)
    );
    assert_eq!(match_direct_pattern("show documents in notes", &sources()), None);
    assert_eq!(dispatch_for_source("src-3", &sources()), dispatch("list_documents", r#"{"source_id":"src-3"}"#));
    assert_eq!(match_direct_pattern("Notes里的文件", &sources()), None);
    assert_eq!(dispatch_for_source("missing", &sources()), None);
}

#[test]
fn conversational_text_falls_through() {
    assert_eq!(classify_direct_request("what do my notes say about rust?"), DirectRequest::NotDirect);
    assert_eq!(match_direct_pattern("list sources and summarize them", &sources()), None);
    assert_eq!(match_direct_pattern("", &sources()), None);
}

#[test]
fn source_ids_are_written_as_escaped_json_strings() {
    let odd = vec![SourceRef { id: "a\"b\\c\td\u{1}".to_string(), root_path: "/x".to_string() }];
    assert_eq!(
        dispatch_for_source("a\"b\\c\td\u{1}", &odd),
        dispatch("list_documents", r#"{"source_id":"a\"b\\c\td\u0001"}"#)
    );
}

#[test]
fn dispatch_names_its_tool_and_arguments() {
    assert_eq!(match_direct_pattern("Please List Sources.", &[]), dispatch("list_sources", "{}"));
    let docs = vec![SourceRef { id: "docs".to_string(), root_path: "/work/Docs".to_string() }];
    assert_eq!(
        match_direct_pattern("list files in docs", &docs),
        dispatch("list_documents", r#"{"source_id":"docs"}"#)
    );
    assert_eq!(match_direct_pattern("list files in docs", &[]), None);
}

#[test]
fn direct_dispatch_outcomes() {
    assert_eq!(direct_dispatch_plan("", &[]), None);
    assert_eq!(direct_dispatch_plan("list sources", &[]), dispatch("list_sources", "{}"));

    let (run, outcome) = direct_dispatch_result("list_sources", Ok(("2 sources".to_string(), false)));
    assert_eq!(run, DirectToolRun { status: ToolRunStatus::Completed, content: "2 sources".to_string(), is_error: false });
    match outcome {
        DirectDispatchOutcome::Completed(m) => assert_eq!(m.content, "2 sources"),
        other => panic!("expected completion, got {:?}", other),
    }
    let (run, outcome) = direct_dispatch_result("list_dir", Ok(("no such dir".to_string(), true)));
    assert_eq!(run.status, ToolRunStatus::Failed);
    assert!(matches!(outcome, DirectDispatchOutcome::ExecutedButFailed));
    let (run, outcome) = direct_dispatch_result("list_dir", Err("timeout".to_string()));
    assert_eq!(run.content, "list_dir failed: timeout");
    assert!(run.is_error);
    assert!(matches!(outcome, DirectDispatchOutcome::ExecutedButFailed));
}
