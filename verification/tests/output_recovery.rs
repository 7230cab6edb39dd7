use nexa_core::llm::FinishReason;
use nexa_core::output_recovery::{
    OutputRecovery, OutputRecoveryCause, OutputRecoveryDecision, OutputRecoveryFailure,
    ToolRoundRejectionCause, CONSECUTIVE_NO_PROGRESS_STALL_THRESHOLD,
};

#[test]
fn output_limit_recovery_remains_active_across_tools() {
    let mut recovery = OutputRecovery::default();
    assert!(matches!(
        recovery.observe(Some(&FinishReason::Length), "", false),
        OutputRecoveryDecision::Continue {
            cause: OutputRecoveryCause::OutputLimit,
            ..
        }
    ));
    assert!(recovery.reserves_answer_channel());
    assert_eq!(
        recovery.observe(Some(&FinishReason::ToolCalls), "", true),
        OutputRecoveryDecision::ToolRound {
            visible_delta: String::new(),
        }
    );
    assert!(recovery.reserves_answer_channel());
    assert_eq!(
        recovery.observe(Some(&FinishReason::Stop), "done", false),
        OutputRecoveryDecision::Final {
            content: "done".to_string(),
            visible_delta: "done".to_string(),
        }
    );
    assert!(!recovery.reserves_answer_channel());
}

#[test]
fn truncated_tool_round_does_not_reintroduce_its_discarded_visible_draft() {
    let mut recovery = OutputRecovery::default();
    assert_eq!(
        recovery.observe(Some(&FinishReason::Length), "partial answer; ", true),
        OutputRecoveryDecision::RejectToolRound {
            cause: ToolRoundRejectionCause::OutputLimit,
            committed_progress: false,
        }
    );
    assert!(!recovery.reserves_answer_channel());
    assert_eq!(
        recovery.observe(Some(&FinishReason::Stop), "finished", false),
        OutputRecoveryDecision::Final {
            content: "finished".to_string(),
            visible_delta: "finished".to_string(),
        }
    );
}

#[test]
fn output_limit_continuations_with_visible_progress_are_joined() {
    let mut recovery = OutputRecovery::default();
    for fragment in ["one ", "two ", "three "] {
        assert!(matches!(
            recovery.observe(Some(&FinishReason::Length), fragment, false),
            OutputRecoveryDecision::Continue {
                cause: OutputRecoveryCause::OutputLimit,
                ..
            }
        ));
    }
    assert_eq!(
        recovery.observe(Some(&FinishReason::Stop), "four", false),
        OutputRecoveryDecision::Final {
            content: "one two three four".to_string(),
            visible_delta: "four".to_string(),
        }
    );
}

#[test]
fn repeated_non_empty_output_limit_fragments_stall_without_growing_the_answer() {
    let mut recovery = OutputRecovery::default();
    assert_eq!(
        recovery.observe(Some(&FinishReason::Length), "same fragment", false),
        OutputRecoveryDecision::Continue {
            cause: OutputRecoveryCause::OutputLimit,
            visible_delta: "same fragment".to_string(),
        }
    );
    for _ in 0..CONSECUTIVE_NO_PROGRESS_STALL_THRESHOLD - 1 {
        assert_eq!(
            recovery.observe(Some(&FinishReason::Length), "same fragment", false),
            OutputRecoveryDecision::Continue {
                cause: OutputRecoveryCause::OutputLimit,
                visible_delta: String::new(),
            }
        );
    }
    assert_eq!(
        recovery.observe(Some(&FinishReason::Length), "same fragment", false),
        OutputRecoveryDecision::Reject(OutputRecoveryFailure::OutputLimit)
    );
    assert_eq!(recovery.visible_prefix(), "same fragment");
}

#[test]
fn repeated_continuation_is_committed_when_later_text_disambiguates_it() {
    let mut recovery = OutputRecovery::default();
    assert_eq!(
        recovery.observe(Some(&FinishReason::Length), "foo", false),
        OutputRecoveryDecision::Continue {
            cause: OutputRecoveryCause::OutputLimit,
            visible_delta: "foo".to_string(),
        }
    );
    let _ = recovery.controller_prompt(OutputRecoveryCause::OutputLimit, true);

    assert_eq!(
        recovery.observe(Some(&FinishReason::Length), "foo", false),
        OutputRecoveryDecision::Continue {
            cause: OutputRecoveryCause::OutputLimit,
            visible_delta: String::new(),
        }
    );
    let _ = recovery.controller_prompt(OutputRecoveryCause::OutputLimit, true);

    assert_eq!(
        recovery.observe(Some(&FinishReason::Stop), "bar", false),
        OutputRecoveryDecision::Final {
            content: "foofoobar".to_string(),
            visible_delta: "foobar".to_string(),
        }
    );
}

#[test]
fn every_ambiguous_fragment_is_retained_until_later_progress() {
    let mut recovery = OutputRecovery::default();
    assert!(matches!(
        recovery.observe(Some(&FinishReason::Length), "foo bar", false),
        OutputRecoveryDecision::Continue { .. }
    ));
    let _ = recovery.controller_prompt(OutputRecoveryCause::OutputLimit, true);
    assert!(matches!(
        recovery.observe(Some(&FinishReason::Length), "foo", false),
        OutputRecoveryDecision::Continue {
            visible_delta,
            ..
        } if visible_delta.is_empty()
    ));
    let _ = recovery.controller_prompt(OutputRecoveryCause::OutputLimit, true);
    assert!(matches!(
        recovery.observe(Some(&FinishReason::Length), "bar", false),
        OutputRecoveryDecision::Continue {
            visible_delta,
            ..
        } if visible_delta.is_empty()
    ));
    let _ = recovery.controller_prompt(OutputRecoveryCause::OutputLimit, true);

    assert_eq!(
        recovery.observe(Some(&FinishReason::Stop), " baz", false),
        OutputRecoveryDecision::Final {
            content: "foo barfoobar baz".to_string(),
            visible_delta: "foobar baz".to_string(),
        }
    );
}

#[test]
fn recovery_tool_round_text_is_committed_through_overlap_normalization() {
    let mut recovery = OutputRecovery::default();
    assert!(matches!(
        recovery.observe(Some(&FinishReason::Length), "abc", false),
        OutputRecoveryDecision::Continue { .. }
    ));
    let _ = recovery.controller_prompt(OutputRecoveryCause::OutputLimit, true);

    assert_eq!(
        recovery.observe(Some(&FinishReason::ToolCalls), "cde", true),
        OutputRecoveryDecision::ToolRound {
            visible_delta: "de".to_string(),
        }
    );
    assert_eq!(recovery.visible_prefix(), "abcde");
}

#[test]
fn fresh_continuation_ack_preserves_intentional_exact_repetition() {
    let mut recovery = OutputRecovery::default();
    assert!(matches!(
        recovery.observe(Some(&FinishReason::Length), "foo", false),
        OutputRecoveryDecision::Continue { .. }
    ));
    let prompt = recovery.controller_prompt(OutputRecoveryCause::OutputLimit, true);
    let acknowledgement = recovery
        .expected_continuation_ack()
        .expect("controller prompt must arm an acknowledgement");
    assert!(prompt.contains(&acknowledgement));

    assert_eq!(
        recovery.observe(
            Some(&FinishReason::Length),
            &format!("{acknowledgement}\nfoo"),
            false,
        ),
        OutputRecoveryDecision::Continue {
            cause: OutputRecoveryCause::OutputLimit,
            visible_delta: "foo".to_string(),
        }
    );
    assert_eq!(recovery.visible_prefix(), "foofoo");
}

#[test]
fn overlapping_utf8_continuations_append_only_novel_suffixes() {
    let mut recovery = OutputRecovery::default();
    for fragment in ["开始你好世界", "世界继续前进"] {
        assert!(matches!(
            recovery.observe(Some(&FinishReason::Length), fragment, false),
            OutputRecoveryDecision::Continue {
                cause: OutputRecoveryCause::OutputLimit,
                ..
            }
        ));
    }
    assert_eq!(
        recovery.observe(Some(&FinishReason::Stop), "继续前进完成", false),
        OutputRecoveryDecision::Final {
            content: "开始你好世界继续前进完成".to_string(),
            visible_delta: "完成".to_string(),
        }
    );
}

#[test]
fn overlap_normalization_preserves_whitespace_only_suffixes() {
    let mut recovery = OutputRecovery::default();
    assert!(matches!(
        recovery.observe(Some(&FinishReason::Length), "foo", false),
        OutputRecoveryDecision::Continue { .. }
    ));
    assert_eq!(
        recovery.observe(Some(&FinishReason::Length), "foo ", false),
        OutputRecoveryDecision::Continue {
            cause: OutputRecoveryCause::OutputLimit,
            visible_delta: " ".to_string(),
        }
    );
    assert_eq!(
        recovery.observe(Some(&FinishReason::Stop), "bar", false),
        OutputRecoveryDecision::Final {
            content: "foo bar".to_string(),
            visible_delta: "bar".to_string(),
        }
    );
}

#[test]
fn whitespace_waits_behind_earlier_ambiguous_fragments() {
    let mut recovery = OutputRecovery::default();
    assert!(matches!(
        recovery.observe(Some(&FinishReason::Length), "foo", false),
        OutputRecoveryDecision::Continue { .. }
    ));
    assert!(matches!(
        recovery.observe(Some(&FinishReason::Length), "foo", false),
        OutputRecoveryDecision::Continue {
            visible_delta,
            ..
        } if visible_delta.is_empty()
    ));
    assert!(matches!(
        recovery.observe(Some(&FinishReason::Length), " ", false),
        OutputRecoveryDecision::Continue {
            visible_delta,
            ..
        } if visible_delta.is_empty()
    ));
    assert_eq!(
        recovery.observe(Some(&FinishReason::Stop), "bar", false),
        OutputRecoveryDecision::Final {
            content: "foofoo bar".to_string(),
            visible_delta: "foo bar".to_string(),
        }
    );
}

#[test]
fn whitespace_fragments_are_visible_but_do_not_hide_a_stalled_recovery() {
    let mut recovery = OutputRecovery::default();
    assert!(matches!(
        recovery.observe(Some(&FinishReason::Length), "foo", false),
        OutputRecoveryDecision::Continue { .. }
    ));
    for _ in 0..CONSECUTIVE_NO_PROGRESS_STALL_THRESHOLD {
        assert_eq!(
            recovery.observe(Some(&FinishReason::Length), "\n", false),
            OutputRecoveryDecision::Continue {
                cause: OutputRecoveryCause::OutputLimit,
                visible_delta: "\n".to_string(),
            }
        );
    }
    assert_eq!(
        recovery.observe(Some(&FinishReason::Length), "\n", false),
        OutputRecoveryDecision::Reject(OutputRecoveryFailure::OutputLimit)
    );
}

#[test]
fn successful_tool_progress_resets_empty_output_limit_stalls() {
    let mut recovery = OutputRecovery::default();
    for _ in 0..3 {
        assert!(matches!(
            recovery.observe(Some(&FinishReason::Length), "", false),
            OutputRecoveryDecision::Continue {
                cause: OutputRecoveryCause::OutputLimit,
                ..
            }
        ));
        assert_eq!(
            recovery.observe(Some(&FinishReason::ToolCalls), "", true),
            OutputRecoveryDecision::ToolRound {
                visible_delta: String::new(),
            }
        );
    }
}

#[test]
fn empty_stop_gets_one_protocol_recovery_but_filter_never_retries() {
    let mut recovery = OutputRecovery::default();
    assert!(matches!(
        recovery.observe(Some(&FinishReason::Stop), "", false),
        OutputRecoveryDecision::Continue {
            cause: OutputRecoveryCause::EmptyTerminal,
            ..
        }
    ));
    assert_eq!(
        recovery.observe(Some(&FinishReason::Stop), "", false),
        OutputRecoveryDecision::Reject(OutputRecoveryFailure::EmptyTerminal)
    );

    let mut filtered = OutputRecovery::default();
    assert_eq!(
        filtered.observe(Some(&FinishReason::ContentFilter), "", false),
        OutputRecoveryDecision::Reject(OutputRecoveryFailure::ContentFiltered)
    );
}

#[test]
fn provider_pause_and_context_limit_are_typed_continuations() {
    let mut paused = OutputRecovery::default();
    assert!(matches!(
        paused.observe(Some(&FinishReason::ProviderPause), "", false),
        OutputRecoveryDecision::Continue {
            cause: OutputRecoveryCause::ProviderPause,
            ..
        }
    ));

    let mut context = OutputRecovery::default();
    assert_eq!(
        context.observe(Some(&FinishReason::ContextLimit), "partial", false),
        OutputRecoveryDecision::Continue {
            cause: OutputRecoveryCause::ContextLimit,
            visible_delta: "partial".to_string(),
        }
    );

    let mut paused_draft = OutputRecovery::default();
    assert_eq!(
        paused_draft.observe_with_provider_state(
            Some(&FinishReason::ProviderPause),
            "draft text",
            true,
            Some("committed-provider-state"),
        ),
        OutputRecoveryDecision::RejectToolRound {
            cause: ToolRoundRejectionCause::ProviderPause,
            committed_progress: true,
        }
    );
    assert!(paused_draft.reserves_answer_channel());
}

#[test]
fn repeated_resumable_text_stalls_without_duplicate_growth() {
    let mut recovery = OutputRecovery::default();
    assert_eq!(
        recovery.observe(Some(&FinishReason::ContextLimit), "abc", false),
        OutputRecoveryDecision::Continue {
            cause: OutputRecoveryCause::ContextLimit,
            visible_delta: "abc".to_string(),
        }
    );
    for _ in 0..CONSECUTIVE_NO_PROGRESS_STALL_THRESHOLD - 1 {
        assert_eq!(
            recovery.observe(Some(&FinishReason::ContextLimit), "abc", false),
            OutputRecoveryDecision::Continue {
                cause: OutputRecoveryCause::ContextLimit,
                visible_delta: String::new(),
            }
        );
    }
    assert_eq!(
        recovery.observe(Some(&FinishReason::ContextLimit), "abc", false),
        OutputRecoveryDecision::Reject(OutputRecoveryFailure::ProtocolIncomplete)
    );
    assert_eq!(recovery.visible_prefix(), "abc");
}

#[test]
fn provider_pause_native_state_counts_as_progress_without_repeating_text() {
    let mut recovery = OutputRecovery::default();
    assert_eq!(
        recovery.observe_with_provider_state(
            Some(&FinishReason::ProviderPause),
            "Searching",
            false,
            Some("state-1"),
        ),
        OutputRecoveryDecision::Continue {
            cause: OutputRecoveryCause::ProviderPause,
            visible_delta: "Searching".to_string(),
        }
    );
    assert_eq!(
        recovery.observe_with_provider_state(
            Some(&FinishReason::ProviderPause),
            "Searching",
            false,
            Some("state-2"),
        ),
        OutputRecoveryDecision::Continue {
            cause: OutputRecoveryCause::ProviderPause,
            visible_delta: String::new(),
        }
    );
    for _ in 0..CONSECUTIVE_NO_PROGRESS_STALL_THRESHOLD - 1 {
        assert!(matches!(
            recovery.observe_with_provider_state(
                Some(&FinishReason::ProviderPause),
                "Searching",
                false,
                Some("state-2"),
            ),
            OutputRecoveryDecision::Continue {
                cause: OutputRecoveryCause::ProviderPause,
                ..
            }
        ));
    }
    assert_eq!(
        recovery.observe_with_provider_state(
            Some(&FinishReason::ProviderPause),
            "Searching",
            false,
            Some("state-2"),
        ),
        OutputRecoveryDecision::Reject(OutputRecoveryFailure::ProtocolIncomplete)
    );
    assert_eq!(recovery.visible_prefix(), "Searching");
}

#[test]
fn malformed_and_unknown_terminals_never_become_success() {
    let mut malformed = OutputRecovery::default();
    assert_eq!(
        malformed.observe(Some(&FinishReason::MalformedToolCall), "partial", false),
        OutputRecoveryDecision::Reject(OutputRecoveryFailure::MalformedToolCall)
    );

    let mut unknown = OutputRecovery::default();
    assert_eq!(
        unknown.observe(
            Some(&FinishReason::Unknown("future_reason".to_string())),
            "apparently complete",
            false,
        ),
        OutputRecoveryDecision::Reject(OutputRecoveryFailure::UnsupportedTerminal(
            "future_reason".to_string()
        ))
    );
}

#[test]
fn fresh_recovery_has_no_visible_content() {
    let recovery = OutputRecovery::default();
    assert!(!recovery.has_visible_content());
    assert_eq!(recovery.visible_prefix(), "");
}
