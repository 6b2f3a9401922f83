//! `dispatch_agent`: hands a task to another agent of the bus and waits for its
//! reply.
use vstd::prelude::*;
use vstd::string::*;
use crate::decimal::{dec, decimal};
use crate::json::{JVal, Json};
use crate::pieces::trimmed;
use crate::search::trim;
use crate::text::{cat3, cat4, cat5, chars_of, copy};
use crate::wire::{subject2, subject3, AgentDispatch, AgentReply, RequestId};

verus! {

/// Milliseconds to wait for a reply by default.
pub const DEFAULT_TIMEOUT_MS: u64 = 30000;

/// The longest wait for a reply, in milliseconds.
pub const MAX_TIMEOUT_MS: u64 = 300000;

/// `dispatch_agent`.
pub struct DispatchAgent;

/// A task that is ready to be handed over.
#[derive(Debug)]
pub struct DispatchPlan {
    pub agent_name: String,
    pub task: String,
    pub timeout_ms: u64,
}

/// A character that may stand in an agent's name.
pub open spec fn name_char(c: char) -> bool {
    ('A' <= c <= 'Z') || ('a' <= c <= 'z') || ('0' <= c <= '9') || c == '-' || c == '_'
}

/// The name is made of letters, digits, `-` and `_`.
pub open spec fn name_ok(s: Seq<char>) -> bool {
    forall|i: int| 0 <= i < s.len() ==> name_char(#[trigger] s[i])
}

/// Whether a name is made of letters, digits, `-` and `_`.
pub fn valid_agent_name(name: &str) -> (r: bool)
    ensures
        r == name_ok(name@),
{
    let v = chars_of(name);
    let n: usize = v.len();
    let mut i: usize = 0;
    while i < n
        invariant
            i <= n,
            n == v@.len(),
            v@ == name@,
            forall|j: int| 0 <= j < i ==> name_char(#[trigger] name@[j]),
        decreases n - i,
    {
        let c: char = v[i];
        let good: bool = ('A' <= c && c <= 'Z') || ('a' <= c && c <= 'z') || ('0' <= c && c <= '9')
            || c == '-' || c == '_';
        if !good {
            assert(!name_char(name@[i as int]));
            return false;
        }
        i += 1;
    }
    true
}

/// A wait within its bounds.
pub open spec fn clamped(ms: u64) -> u64 {
    if ms < 100 {
        100
    } else if ms > MAX_TIMEOUT_MS {
        MAX_TIMEOUT_MS
    } else {
        ms
    }
}

/// A wait within its bounds: a tenth of a second to five minutes.
pub fn clamp_timeout(ms: u64) -> (r: u64)
    ensures
        r == clamped(ms),
{
    if ms < 100 {
        100
    } else if ms > MAX_TIMEOUT_MS {
        MAX_TIMEOUT_MS
    } else {
        ms
    }
}

/// The content of a [`DispatchPlan`].
pub struct DispatchPlanView {
    pub agent_name: Seq<char>,
    pub task: Seq<char>,
    pub timeout_ms: u64,
}

/// The plan that arguments amount to, or what is wrong with them.
pub open spec fn dispatch_plan(args: JVal) -> Result<DispatchPlanView, Seq<char>> {
    match args.field("agent_name"@).as_text() {
        None => Err("missing 'agent_name' (string)"@),
        Some(raw) => {
            let name = trim(raw);
            if name.len() == 0 {
                Err("agent_name must not be empty"@)
            } else if !name_ok(name) {
                Err(
                    "agent_name '"@ + name
                        + "' contains disallowed characters (only A-Z, a-z, 0-9, '-', '_')"@,
                )
            } else {
                match args.field("task"@).as_text() {
                    None => Err("missing 'task' (string)"@),
                    Some(task) => if trim(task).len() == 0 {
                        Err("task must not be empty"@)
                    } else {
                        Ok(
                            DispatchPlanView {
                                agent_name: name,
                                task,
                                timeout_ms: clamped(
                                    match args.field("timeout_ms"@).as_uint() {
                                        Some(n) => n,
                                        None => DEFAULT_TIMEOUT_MS,
                                    },
                                ),
                            },
                        )
                    },
                }
            }
        },
    }
}

impl DispatchAgent {
    /// Checks the arguments.
    pub fn call(&self, args: &Json) -> (r: Result<DispatchPlan, String>)
        ensures
            match r {
                Ok(p) => dispatch_plan(args@) == Ok::<DispatchPlanView, Seq<char>>(
                    DispatchPlanView {
                        agent_name: p.agent_name@,
                        task: p.task@,
                        timeout_ms: p.timeout_ms,
                    },
                ),
                Err(e) => dispatch_plan(args@) == Err::<DispatchPlanView, Seq<char>>(e@),
            },
    {
        let agent_name = match args.text_field("agent_name") {
            Some(s) => trimmed(s),
            None => {
                return Err(copy("missing 'agent_name' (string)"));
            },
        };
        if agent_name.as_str().is_empty() {
            return Err(copy("agent_name must not be empty"));
        }
        if !valid_agent_name(agent_name.as_str()) {
            return Err(
                cat3(
                    "agent_name '",
                    agent_name.as_str(),
                    "' contains disallowed characters (only A-Z, a-z, 0-9, '-', '_')",
                ),
            );
        }
        let task = match args.text_field("task") {
            Some(s) => copy(s),
            None => {
                return Err(copy("missing 'task' (string)"));
            },
        };
        let t = trimmed(task.as_str());
        if t.as_str().is_empty() {
            return Err(copy("task must not be empty"));
        }
        let asked: u64 = match args.uint_field("timeout_ms") {
            Some(n) => n,
            None => DEFAULT_TIMEOUT_MS,
        };
        Ok(DispatchPlan { agent_name, task, timeout_ms: clamp_timeout(asked) })
    }
}

impl DispatchPlan {
    /// The subject on which the task is published.
    pub fn subject(&self) -> (r: String)
        ensures
            r@ == subject2("agent.dispatch"@, self.agent_name@),
    {
        cat3("agent.dispatch", ".", self.agent_name.as_str())
    }

    /// The request, with the subject on which the reply is awaited.
    pub fn envelope(&self, request_id: RequestId) -> (r: AgentDispatch)
        ensures
            r.request_id == request_id,
            r.user_input@ == self.task@,
            r.reply_to@ == subject3("agent.response"@, self.agent_name@, request_id.text()),
            r.context is Some,
            r.context->0@ == JVal::object().with("from"@, JVal::Str("dispatch_agent"@)),
    {
        let id = request_id.to_text();
        AgentDispatch {
            request_id,
            user_input: copy(self.task.as_str()),
            context: Some(Json::object().with_text("from", "dispatch_agent")),
            reply_to: cat5("agent.response", ".", self.agent_name.as_str(), ".", id.as_str()),
        }
    }

    /// What a reply amounts to.
    pub fn take_reply(&self, reply: &AgentReply) -> (r: Result<String, String>)
        ensures
            match r {
                Ok(s) => reply.ok && s@ == reply.text@,
                Err(e) => !reply.ok && e@ == "agent '"@ + self.agent_name@ + "' returned error: "@
                    + (match reply.error {
                    Some(x) => x@,
                    None => "unknown"@,
                }),
            },
    {
        if reply.ok {
            Ok(copy(reply.text.as_str()))
        } else {
            let why = match &reply.error {
                Some(x) => x.as_str(),
                None => "unknown",
            };
            Err(cat4("agent '", self.agent_name.as_str(), "' returned error: ", why))
        }
    }

    /// The error where no reply came in time.
    pub fn timed_out(&self) -> (r: String)
        ensures
            r@ == "dispatch_agent timed out after "@ + dec(self.timeout_ms as nat)
                + "ms waiting for '"@ + self.agent_name@ + "'"@,
    {
        let n = decimal(self.timeout_ms);
        cat5(
            "dispatch_agent timed out after ",
            n.as_str(),
            "ms waiting for '",
            self.agent_name.as_str(),
            "'",
        )
    }
}

/// A name that is accepted adds one level to a subject, so a task can reach
/// only the agent that it names.
pub proof fn accepted_names_are_single_tokens(args: JVal)
    requires
        dispatch_plan(args) is Ok,
    ensures
        crate::wire::is_token(dispatch_plan(args)->Ok_0.agent_name),
{
    let name = dispatch_plan(args)->Ok_0.agent_name;
    assert forall|i: int| 0 <= i < name.len() implies !crate::wire::reserved(
        #[trigger] name[i],
    ) by {
        assert(name_char(name[i]));
    }
}

} // verus!
