//! Tool permissions and metering of a task.
use vstd::prelude::*;
use crate::message::ToolCall;
use crate::observer::{Disposition, ToolResult};
use crate::pieces::listed;
use crate::search::texts;
use crate::text::cat3;

verus! {

/// Credits used up so far.
#[derive(Clone, Copy, Debug, PartialEq, Eq, Structural)]
pub struct CreditCounter {
    pub total: u64,
}

/// Decides which tools a task may call, and meters the time that they take.
pub struct EngineObserver {
    /// Credits used up so far.
    pub credits: CreditCounter,
    /// The tools that may be called; all when it is empty.
    pub permitted_tools: Vec<String>,
    /// The tools that may not be called.
    pub denied_tools: Vec<String>,
    /// Credits per millisecond of tool time.
    pub credits_per_ms: u64,
}

/// Why a tool may not be called, if it may not: the deny list comes first.
pub open spec fn policy(
    permitted: Seq<Seq<char>>,
    denied: Seq<Seq<char>>,
    name: Seq<char>,
) -> Option<Seq<char>> {
    if denied.contains(name) {
        Some("tool '"@ + name + "' is denied by policy"@)
    } else if permitted.len() > 0 && !permitted.contains(name) {
        Some("tool '"@ + name + "' is not in the permitted set"@)
    } else {
        None
    }
}

/// A tool on the deny list is refused whatever else is permitted.
pub proof fn denial_overrides_permission(
    permitted: Seq<Seq<char>>,
    denied: Seq<Seq<char>>,
    name: Seq<char>,
)
    requires
        denied.contains(name),
    ensures
        policy(permitted, denied, name) is Some,
{
}

impl EngineObserver {
    pub fn new(credits: CreditCounter, permitted_tools: Vec<String>, denied_tools: Vec<String>) -> (r:
        Self)
        ensures
            r.credits == credits,
            r.permitted_tools == permitted_tools,
            r.denied_tools == denied_tools,
            r.credits_per_ms == 1,
    {
        EngineObserver { credits, permitted_tools, denied_tools, credits_per_ms: 1 }
    }

    /// The credits that a counter shows.
    pub fn credits_consumed(credits: &CreditCounter) -> (r: u64)
        ensures
            r == credits.total,
    {
        credits.total
    }

    /// A counter at zero.
    pub fn credits_counter() -> (r: CreditCounter)
        ensures
            r.total == 0,
    {
        CreditCounter { total: 0 }
    }

    /// Whether a call may proceed.
    pub fn should_dispatch(&self, call: &ToolCall) -> (r: Disposition)
        ensures
            crate::step::verdict_view(r) == policy(
                texts(self.permitted_tools@),
                texts(self.denied_tools@),
                call@.name,
            ),
    {
        let name = call.function.name.as_str();
        if listed(&self.denied_tools, name) {
            return Disposition::Refused(cat3("tool '", name, "' is denied by policy"));
        }
        if self.permitted_tools.len() > 0 && !listed(&self.permitted_tools, name) {
            return Disposition::Refused(cat3("tool '", name, "' is not in the permitted set"));
        }
        Disposition::Allow
    }

    /// Charges the time that a tool took: whole milliseconds, wrapping like the
    /// counter does.
    pub fn on_tool_end(&mut self, _call: &ToolCall, result: &ToolResult)
        requires
            (result.duration_us / 1000) * old(self).credits_per_ms <= u64::MAX,
        ensures
            final(self).credits.total == (old(self).credits.total + (result.duration_us / 1000)
                * old(self).credits_per_ms) % 0x1_0000_0000_0000_0000,
            final(self).permitted_tools == old(self).permitted_tools,
            final(self).denied_tools == old(self).denied_tools,
            final(self).credits_per_ms == old(self).credits_per_ms,
    {
        let used: u64 = (result.duration_us / 1000) * self.credits_per_ms;
        let total: u64 = self.credits.total.wrapping_add(used);
        self.credits = CreditCounter { total };
    }
}

} // verus!
