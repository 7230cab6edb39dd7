//! Verified core of the Nexa agent runtime.

pub mod activity;
pub mod agent;
pub mod context;
pub mod context_compaction;
pub mod copilot_bridge;
pub mod direct_dispatch;
pub mod error;
pub mod final_answer_hygiene;
pub mod finalization;
pub mod events;
pub mod llm;
pub mod long_task;
pub mod loop_guard;
pub mod model_progress;
pub mod model_step;
pub mod output_budget;
pub mod output_recovery;
pub mod power_mode;
pub mod pre_search;
pub mod projection;
pub mod prompt_cache;
pub mod prompt_ir;
pub mod prompt_layout;
pub mod route;
pub mod session_events;
pub mod steering;
pub mod stream_recovery;
pub mod string_map;
pub mod terminal;
pub mod text;
pub mod tool_calls;
pub mod tool_discovery;
pub mod tool_preview_journal;
