//! Event payload types the agent reports while it runs.

use vstd::prelude::*;

verus! {

/// Which visible stream a block of text belongs to.
#[derive(Debug, Clone, Copy, PartialEq, Eq, Structural)]
pub enum StreamBlockChannel {
    Answer,
    Thinking,
}

/// Provider connectivity state during a recoverable turn.
#[derive(Debug, Clone, Copy, PartialEq, Eq, Structural)]
pub enum ConnectionStateKind {
    Degraded,
    Reconnecting,
    Recovered,
    Offline,
    Failed,
}

/// Coarse cause of a connection problem.
#[derive(Debug, Clone, Copy, PartialEq, Eq, Structural)]
pub enum ConnectionErrorCategory {
    Network,
    Timeout,
    RateLimit,
    ProviderUnavailable,
    Authentication,
    Unknown,
}

/// Structured provider connectivity state for recoverable turns, kept apart
/// from reasoning and answer text so that retry status is never persisted as
/// assistant content.
#[derive(Debug, Clone, PartialEq, Eq)]
pub struct ConnectionStateEvent {
    pub state: ConnectionStateKind,
    pub provider_id: String,
    pub model_id: String,
    pub error_category: Option<ConnectionErrorCategory>,
    pub attempt: u32,
    pub max_attempts: u32,
    pub next_retry_at: Option<String>,
    pub recoverable: bool,
    pub queued_user_inputs: u32,
    pub turn_preserved: bool,
}

/// Life cycle of one tool run.
#[derive(Debug, Clone, Copy, PartialEq, Eq, Structural)]
pub enum ToolRunStatus {
    Preparing,
    ApprovalPending,
    Running,
    Completed,
    Failed,
    Declined,
    Cancelled,
    TimedOut,
}

/// Wire name of a tool-run status.
pub open spec fn tool_run_status_name(s: ToolRunStatus) -> Seq<char> {
    match s {
        ToolRunStatus::Preparing => "preparing"@,
        ToolRunStatus::ApprovalPending => "approval_pending"@,
        ToolRunStatus::Running => "running"@,
        ToolRunStatus::Completed => "completed"@,
        ToolRunStatus::Failed => "failed"@,
        ToolRunStatus::Declined => "declined"@,
        ToolRunStatus::Cancelled => "cancelled"@,
        ToolRunStatus::TimedOut => "timed_out"@,
    }
}

impl ToolRunStatus {
    pub fn as_str(&self) -> (s: &'static str)
        ensures
            s@ == tool_run_status_name(*self),
    {
        match self {
            ToolRunStatus::Preparing => "preparing",
            ToolRunStatus::ApprovalPending => "approval_pending",
            ToolRunStatus::Running => "running",
            ToolRunStatus::Completed => "completed",
            ToolRunStatus::Failed => "failed",
            ToolRunStatus::Declined => "declined",
            ToolRunStatus::Cancelled => "cancelled",
            ToolRunStatus::TimedOut => "timed_out",
        }
    }
}

} // verus!
