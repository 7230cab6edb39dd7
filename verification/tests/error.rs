use nexa_core::error::CoreError;

#[test]
fn context_overflow_message_names_both_counts() {
    assert_eq!(
        CoreError::ContextOverflow(10, 5).message(),
        "LLM context window exceeded: 10 tokens > 5 max"
    );
}

#[test]
fn other_errors_carry_their_own_text() {
    assert_eq!(CoreError::Cancelled("Stopped by user".to_string()).message(), "Stopped by user");
    assert_eq!(CoreError::Agent("no answer".to_string()).message(), "no answer");
}
