use nexa_core::final_answer_hygiene::FinalAnswerHygieneScope;

fn scope(texts: &[&str]) -> FinalAnswerHygieneScope {
    let mut scope = FinalAnswerHygieneScope::default();
    scope.observe_user_texts(texts);
    scope
}

#[test]
fn detects_reserved_internal_headers_at_visible_line_boundaries() {
    assert_eq!(
        scope(&["give me the result"])
            .contamination_marker("Answer\n\n## Long Task Control State\nPlan progress: 2/3"),
        Some("Long Task Control State")
    );
    assert_eq!(
        scope(&["give me the result"]).contamination_marker(
            "Verified legacy visible-history summary\nAssistant requested tools: edit_file"
        ),
        Some("Verified legacy visible-history summary")
    );
    assert_eq!(
        scope(&["answer"])
            .contamination_marker("## Provider replay boundary\nVisible-history digest: abc"),
        Some("Provider replay boundary")
    );
}

#[test]
fn detects_reserved_internal_headers_case_insensitively() {
    assert_eq!(
        scope(&["give me the result"])
            .contamination_marker("Answer\n\n## Long task control state\nPlan progress: 2/3"),
        Some("Long Task Control State")
    );
    assert_eq!(
        scope(&["give me the result"]).contamination_marker(
            "VERIFIED LEGACY VISIBLE-HISTORY SUMMARY\nAssistant requested tools: edit_file"
        ),
        Some("Verified legacy visible-history summary")
    );
}

#[test]
fn allows_the_user_to_discuss_or_quote_the_reserved_header() {
    let marker = "Verified legacy visible-history summary";
    assert_eq!(
        FinalAnswerHygieneScope::from_user_text(&format!("Why does the UI show: {marker}"))
            .contamination_marker(marker),
        None
    );
    assert_eq!(
        scope(&["what is the long task control state?"])
            .contamination_marker("## Long Task Control State\nThis is the requested explanation."),
        None
    );
    assert_eq!(
        scope(&["summarize the result", "Explain Long Task Control State"])
            .contamination_marker("## Long Task Control State\nThis is the steered explanation."),
        None
    );
}

#[test]
fn ordinary_answer_text_is_clean() {
    assert_eq!(
        scope(&["summarize it"]).contamination_marker("The implementation is verified and clean."),
        None
    );
}

#[test]
fn markers_only_count_at_the_start_of_a_visible_line() {
    let s = scope(&["hi"]);
    assert_eq!(
        s.contamination_marker("See the Provider replay boundary note below."),
        None
    );
    assert_eq!(
        s.contamination_marker("intro\r\n  ### \tprovider REPLAY boundary: x"),
        Some("Provider replay boundary")
    );
    assert_eq!(s.contamination_marker(""), None);
    assert_eq!(s.contamination_marker("Provider replay bound"), None);
    assert_eq!(
        s.contamination_marker(
            "Long Task Control State\nVerified legacy visible-history summary"
        ),
        Some("Verified legacy visible-history summary")
    );
}
