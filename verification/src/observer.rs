//! Lifecycle hooks of an agent step.
use vstd::prelude::*;
use crate::message::{Message, ToolCall, UsageStats};

verus! {

/// Result of a tool execution, as observers see it.
#[derive(Debug)]
pub struct ToolResult {
    pub name: String,
    pub output: Result<String, String>,
    pub duration_us: u64,
}

/// What a step was started with.
#[derive(Debug)]
pub struct StepContext {
    pub session: String,
    pub user_input: String,
}

/// Whether a tool call may proceed.
#[derive(Debug)]
pub enum Disposition {
    /// The call may proceed.
    Allow,
    /// The call is refused; the text goes back to the model.
    Refused(String),
}

/// Lifecycle observer. Every hook has a default that does nothing, and the
/// policy allows every call by default.
pub trait Observer: Send + Sync {
    /// A step begins.
    fn on_step_start(&self, _ctx: &StepContext) {
    }

    /// A tool call is about to be handled.
    fn on_tool_start(&self, _call: &ToolCall) {
    }

    /// A tool call was handled.
    fn on_tool_end(&self, _call: &ToolCall, _result: &ToolResult) {
    }

    /// The step ended with a final assistant message.
    fn on_step_end(&self, _response: &Message) {
    }

    /// The step ended with an error.
    fn on_step_error(&self, _error: &str) {
    }

    /// Token usage of the whole step; fires at every step exit.
    fn on_step_usage(&self, _usage: UsageStats) {
    }

    /// A call was repeated with the same arguments once too often.
    fn on_loop_detected(&self, _name: &str, _args: &str) {
    }

    /// Asked before every tool dispatch.
    fn should_dispatch(&self, _call: &ToolCall) -> (r: Disposition)
        default_ensures
            r is Allow,
    {
        Disposition::Allow
    }
}

/// An observer that does nothing.
pub struct NoOpObserver;

impl Observer for NoOpObserver {

}

} // verus!
