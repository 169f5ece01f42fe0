//! Error types of the LLM layer.
use vstd::prelude::*;
use vstd::string::StringExecFns;
use crate::text::{dec, owned, push_dec};

verus! {

/// Errors raised by providers, parsers and the agent layer.
#[derive(Debug, Clone)]
pub enum LlmError {
    Http(String),
    HttpStatus { status: u16, body: String },
    Json(String),
    EmptyResponse,
    Config(String),
    Timeout,
    ParseError(String),
    NotImplemented(String),
}

/// The display text of an [`LlmError`].
pub open spec fn llm_error_text(e: LlmError) -> Seq<char> {
    match e {
        LlmError::Http(s) => "HTTP error: "@ + s@,
        LlmError::HttpStatus { status, body } => "HTTP status "@ + dec(status as nat) + ": "@ + body@,
        LlmError::Json(s) => "JSON error: "@ + s@,
        LlmError::EmptyResponse => "stream ended without assistant content"@,
        LlmError::Config(s) => "unsupported provider configuration: "@ + s@,
        LlmError::Timeout => "request timeout after 30 seconds"@,
        LlmError::ParseError(s) => "parse error: "@ + s@,
        LlmError::NotImplemented(s) => "not implemented: "@ + s@,
    }
}

impl LlmError {
    /// The human-readable message of this error.
    pub fn message(&self) -> (r: String)
        ensures
            r@ == llm_error_text(*self),
    {
        match self {
            LlmError::Http(s) => {
                let mut r = owned("HTTP error: ");
                r.append(s.as_str());
                r
            },
            LlmError::HttpStatus { status, body } => {
                let mut r = owned("HTTP status ");
                push_dec(&mut r, *status as u64);
                r.append(": ");
                r.append(body.as_str());
                r
            },
            LlmError::Json(s) => {
                let mut r = owned("JSON error: ");
                r.append(s.as_str());
                r
            },
            LlmError::EmptyResponse => owned("stream ended without assistant content"),
            LlmError::Config(s) => {
                let mut r = owned("unsupported provider configuration: ");
                r.append(s.as_str());
                r
            },
            LlmError::Timeout => owned("request timeout after 30 seconds"),
            LlmError::ParseError(s) => {
                let mut r = owned("parse error: ");
                r.append(s.as_str());
                r
            },
            LlmError::NotImplemented(s) => {
                let mut r = owned("not implemented: ");
                r.append(s.as_str());
                r
            },
        }
    }
}

/// A failed tool execution.
#[derive(Debug, Clone)]
pub struct ToolExecError {
    pub name: String,
    pub message: String,
}

impl ToolExecError {
    /// `Tool '{name}' execution failed: {message}`.
    pub fn text(&self) -> (r: String)
        ensures
            r@ == "Tool '"@ + self.name@ + "' execution failed: "@ + self.message@,
    {
        let mut r = owned("Tool '");
        r.append(self.name.as_str());
        r.append("' execution failed: ");
        r.append(self.message.as_str());
        r
    }
}

} // verus!
