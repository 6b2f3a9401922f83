//! Session persistence as the agent sees it.
use vstd::prelude::*;
use crate::message::Message;
use crate::text::cat2;

verus! {

/// Failure of a store operation.
#[derive(Debug)]
pub enum StoreError {
    /// The store could not be opened.
    Open(String),
    /// A query or an I/O operation failed.
    Io(String),
    /// A message could not be encoded or decoded.
    Serde(String),
}

impl StoreError {
    /// The error's text.
    pub open spec fn text(&self) -> Seq<char> {
        match self {
            StoreError::Open(e) => "store open: "@ + e@,
            StoreError::Io(e) => "store io: "@ + e@,
            StoreError::Serde(e) => "store serde: "@ + e@,
        }
    }

    /// The error as a line of text.
    pub fn to_text(&self) -> (r: String)
        ensures
            r@ == self.text(),
    {
        match self {
            StoreError::Open(e) => cat2("store open: ", e.as_str()),
            StoreError::Io(e) => cat2("store io: ", e.as_str()),
            StoreError::Serde(e) => cat2("store serde: ", e.as_str()),
        }
    }
}

/// A tool execution record.
#[derive(Debug)]
pub struct ToolLog<'a> {
    pub name: &'a str,
    pub args: &'a str,
    pub result: &'a str,
    pub duration_us: u64,
}

/// Durable storage of conversations and tool logs, keyed by session.
pub trait MessageStore: Send + Sync {
    /// All messages of a session in insertion order.
    fn load(&self, session: &str) -> Result<Vec<Message>, StoreError>;

    /// Appends one message to a session.
    fn append(&self, session: &str, message: &Message) -> Result<(), StoreError>;

    /// Records a tool execution.
    fn log_tool(&self, session: &str, log: &ToolLog<'_>) -> Result<(), StoreError>;

    /// Removes everything that is kept for a session.
    fn clear(&self, session: &str) -> Result<(), StoreError>;
}

/// The error says of what kind it is, and then what happened.
pub proof fn an_error_tells_its_kind(e: StoreError)
    ensures
        match e {
            StoreError::Open(s) => e.text() == "store open: "@ + s@,
            StoreError::Io(s) => e.text() == "store io: "@ + s@,
            StoreError::Serde(s) => e.text() == "store serde: "@ + s@,
        },
{
}

} // verus!
