//! Errors reported by the agent runtime.

use vstd::prelude::*;

use crate::text::{decimal, decimal_string};

verus! {

/// Runtime error.
#[derive(Debug, Clone, PartialEq, Eq)]
pub enum CoreError {
    Llm(String),
    TransientLlm(String),
    InvalidInput(String),
    Agent(String),
    StreamIncomplete(String),
    Internal(String),
    Cancelled(String),
    /// The prompt needed the first count of tokens; the model allows the second.
    ContextOverflow(u32, u32),
}

/// Human-readable text of an error.
pub open spec fn core_error_message(e: CoreError) -> Seq<char> {
    match e {
        CoreError::ContextOverflow(used, max) => "LLM context window exceeded: "@ + decimal(
            used as nat,
        ) + " tokens > "@ + decimal(max as nat) + " max"@,
        CoreError::Cancelled(m) => m@,
        CoreError::Llm(m) => m@,
        CoreError::TransientLlm(m) => m@,
        CoreError::InvalidInput(m) => m@,
        CoreError::Agent(m) => m@,
        CoreError::StreamIncomplete(m) => m@,
        CoreError::Internal(m) => m@,
    }
}

impl CoreError {
    /// Human-readable text of the error.
    pub fn message(&self) -> (s: String)
        ensures
            s@ == core_error_message(*self),
    {
        match self {
            CoreError::ContextOverflow(used, max) => {
                let mut s = String::new();
                s.append("LLM context window exceeded: ");
                let u = decimal_string(*used as u64);
                s.append(u.as_str());
                s.append(" tokens > ");
                let m = decimal_string(*max as u64);
                s.append(m.as_str());
                s.append(" max");
                s
            },
            CoreError::Llm(m) | CoreError::TransientLlm(m) | CoreError::InvalidInput(m)
            | CoreError::Agent(m) | CoreError::StreamIncomplete(m) | CoreError::Internal(m)
            | CoreError::Cancelled(m) => m.clone(),
        }
    }
}

} // verus!
