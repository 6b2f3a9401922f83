//! Errors of an inference backend.
use vstd::prelude::*;
use crate::decimal::{dec, decimal};
use crate::text::{cat2, cat4};

verus! {

/// Failure of one inference turn.
#[derive(Debug)]
pub enum BackendError {
    /// The network failed.
    Transport(String),
    /// The provider answered with an HTTP error status.
    Http { code: u16, body: String },
    /// The answer could not be read.
    Parse(String),
    /// All attempts failed.
    Retry(String),
    /// The provider reported an error of its own.
    Provider(String),
}

impl BackendError {
    /// The error's text.
    pub open spec fn text(&self) -> Seq<char> {
        match self {
            BackendError::Transport(e) => "transport: "@ + e@,
            BackendError::Http { code, body } => "http "@ + dec(*code as nat) + ": "@ + body@,
            BackendError::Parse(e) => "parse: "@ + e@,
            BackendError::Retry(e) => "retry: "@ + e@,
            BackendError::Provider(e) => "provider: "@ + e@,
        }
    }

    /// The error as a line of text.
    pub fn to_text(&self) -> (r: String)
        ensures
            r@ == self.text(),
    {
        match self {
            BackendError::Transport(e) => cat2("transport: ", e.as_str()),
            BackendError::Http { code, body } => {
                let n = decimal(*code as u64);
                cat4("http ", n.as_str(), ": ", body.as_str())
            },
            BackendError::Parse(e) => cat2("parse: ", e.as_str()),
            BackendError::Retry(e) => cat2("retry: ", e.as_str()),
            BackendError::Provider(e) => cat2("provider: ", e.as_str()),
        }
    }
}

/// The error says of what kind it is, and then what happened.
pub proof fn an_error_tells_its_kind(e: BackendError)
    ensures
        match e {
            BackendError::Transport(s) => e.text() == "transport: "@ + s@,
            BackendError::Http { code, body } => e.text() == "http "@ + dec(code as nat) + ": "@ + body@,
            BackendError::Parse(s) => e.text() == "parse: "@ + s@,
            BackendError::Retry(s) => e.text() == "retry: "@ + s@,
            BackendError::Provider(s) => e.text() == "provider: "@ + s@,
        },
{
}

} // verus!
