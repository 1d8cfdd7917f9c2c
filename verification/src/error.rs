//! Errors of the orchestrator core.

use vstd::prelude::*;
use vstd::string::*;

verus! {

/// Error raised by the orchestrator.
#[derive(Debug, Clone)]
pub enum SmaError {
    OllamaUnreachable(String, String),
    OllamaApi(String),
    SafetyBlocked(String),
    KnowledgeBase(String),
    InvalidIntent(String),
    Internal(String),
}

/// The user-facing message of an error.
pub open spec fn error_message(e: SmaError) -> Seq<char> {
    match e {
        SmaError::OllamaUnreachable(url, why) => "Ollama unreachable at "@ + url@ + ": "@ + why@,
        SmaError::OllamaApi(m) => "Ollama API error: "@ + m@,
        SmaError::SafetyBlocked(m) => "Safety linter blocked command: "@ + m@,
        SmaError::KnowledgeBase(m) => "Knowledge base error: "@ + m@,
        SmaError::InvalidIntent(m) => "Invalid intent: "@ + m@,
        SmaError::Internal(m) => "Internal error: "@ + m@,
    }
}

impl SmaError {
    /// The user-facing message of this error (what it displays as).
    pub fn message(&self) -> (r: String)
        ensures
            r@ == error_message(*self),
    {
        match self {
            SmaError::OllamaUnreachable(url, why) => {
                let mut s = "Ollama unreachable at ".to_string();
                s.append(url.as_str());
                s.append(": ");
                s.append(why.as_str());
                s
            },
            SmaError::OllamaApi(m) => {
                let mut s = "Ollama API error: ".to_string();
                s.append(m.as_str());
                s
            },
            SmaError::SafetyBlocked(m) => {
                let mut s = "Safety linter blocked command: ".to_string();
                s.append(m.as_str());
                s
            },
            SmaError::KnowledgeBase(m) => {
                let mut s = "Knowledge base error: ".to_string();
                s.append(m.as_str());
                s
            },
            SmaError::InvalidIntent(m) => {
                let mut s = "Invalid intent: ".to_string();
                s.append(m.as_str());
                s
            },
            SmaError::Internal(m) => {
                let mut s = "Internal error: ".to_string();
                s.append(m.as_str());
                s
            },
        }
    }
}

}
