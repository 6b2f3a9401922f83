//! Requests and replies of the daemon.
use vstd::prelude::*;
use vstd::string::*;
use crate::daemon::state::system_prompt;
use crate::decimal::{dec, decimal};
use crate::engine::task::Task;
use crate::ids::{is_fresh_id, is_random, random_uuid, uuid_text};
use crate::json::{json_text, render, JVal, Json};
use crate::message::{Message, ToolCall};
use crate::net::convert::or_empty;
use crate::observer::ToolResult;
use crate::text::{byte_len, cat2, cat4, clip, clip_text, copy, size};

verus! {

/// How the daemon is doing.
#[derive(Debug)]
pub struct HealthResponse {
    pub status: String,
    pub machine: String,
    pub uptime_seconds: i64,
    pub model: String,
    pub sessions: usize,
}

/// A request for a step.
#[derive(Debug)]
pub struct StepRequest {
    pub prompt: String,
    pub session_id: String,
    pub system_prompt: Option<String>,
}

/// The answer of a step.
#[derive(Debug)]
pub struct StepResponse {
    pub session_id: String,
    pub response: String,
}

/// A request for a task.
#[derive(Debug)]
pub struct EngineRequest {
    pub task: Task,
    pub system_prompt: Option<String>,
    pub max_steps: Option<usize>,
    pub credits_per_step: Option<u64>,
    pub budget_allocated: Option<u64>,
    pub ttl_seconds: Option<i64>,
    pub permitted_tools: Option<Vec<String>>,
    pub denied_tools: Option<Vec<String>>,
}

/// A tool as it is listed.
#[derive(Debug)]
pub struct ToolInfo {
    pub name: String,
}

/// The whole seconds of a span in nanoseconds.
pub open spec fn whole_seconds(ns: int) -> int {
    if ns >= 0 {
        ns / 1000000000
    } else {
        -((-ns) / 1000000000)
    }
}

/// The report on how the daemon is doing. Times are nanoseconds since 1970.
pub fn health(machine: &str, model: &str, started_at: i128, now: i128, sessions: usize) -> (r:
    HealthResponse)
    requires
        i64::MIN <= whole_seconds(now - started_at) <= i64::MAX,
    ensures
        r.status@ == "ok"@,
        r.machine@ == machine@,
        r.uptime_seconds == whole_seconds(now - started_at),
        r.model@ == model@,
        r.sessions == sessions,
{
    let span: i128 = now - started_at;
    let uptime_seconds: i64 = if span >= 0 {
        (span / 1000000000) as i64
    } else {
        (-((-span) / 1000000000)) as i64
    };
    HealthResponse {
        status: copy("ok"),
        machine: copy(machine),
        uptime_seconds,
        model: copy(model),
        sessions,
    }
}

/// A session of its own for a request that names none.
pub fn default_session() -> (r: String)
    ensures
        is_fresh_id(r@),
{
    let n: u128 = random_uuid();
    assert(is_random(n));
    uuid_text(n)
}

/// The outcome of a step: the answer, or the text of an internal error.
pub fn step(session: &str, result: Result<String, String>) -> (r: Result<StepResponse, String>)
    ensures
        match result {
            Ok(text) => r is Ok && r->Ok_0.session_id@ == session@ && r->Ok_0.response@ == text@,
            Err(e) => r is Err && r->Err_0@ == "agent step failed: "@ + e@,
        },
{
    match result {
        Ok(text) => Ok(StepResponse { session_id: copy(session), response: text }),
        Err(e) => Err(cat2("agent step failed: ", e.as_str())),
    }
}

/// An event of a streamed step.
#[derive(Debug)]
pub struct SseItem {
    pub event: &'static str,
    pub json: String,
}

/// Bytes of a tool result that an event shows.
pub const RESULT_CAP: usize = 2048;

/// A tool result as an event shows it.
pub open spec fn shown_result(s: Seq<char>) -> Seq<char> {
    if byte_len(s) > RESULT_CAP {
        let c = clip(s, RESULT_CAP as nat);
        c + "… ["@ + dec((byte_len(s) - byte_len(c)) as nat) + " bytes truncated]"@
    } else {
        s
    }
}

/// A tool result as an event shows it.
pub fn display_result(s: &str) -> (r: String)
    ensures
        r@ == shown_result(s@),
{
    let n: usize = size(s);
    if n > RESULT_CAP {
        let c = clip_text(s, RESULT_CAP);
        proof {
            crate::text::clip_is_longest_prefix(s@, RESULT_CAP as nat);
        }
        let left = decimal((n - size(c.as_str())) as u64);
        cat4(c.as_str(), "… [", left.as_str(), " bytes truncated]")
    } else {
        copy(s)
    }
}

/// The first event of a stream.
pub fn session_start(session: &str, model: &str) -> (r: SseItem)
    ensures
        r.event@ == "session_start"@,
        r.json@ == json_text(
            JVal::object().with("session_id"@, JVal::Str(session@)).with(
                "model"@,
                JVal::Str(model@),
            ),
        ),
{
    SseItem {
        event: "session_start",
        json: render(&Json::object().with_text("session_id", session).with_text("model", model)),
    }
}

/// The event of a token.
pub fn token_event(token: &str) -> (r: SseItem)
    ensures
        r.event@ == "token"@,
        r.json@ == json_text(JVal::object().with("content"@, JVal::Str(token@))),
{
    SseItem { event: "token", json: render(&Json::object().with_text("content", token)) }
}

/// The event of a tool call.
pub fn tool_call_event(call: &ToolCall) -> (r: SseItem)
    ensures
        r.event@ == "tool_call"@,
        r.json@ == json_text(
            JVal::object().with("name"@, JVal::Str(call@.name)).with(
                "args"@,
                JVal::Str(call@.arguments),
            ),
        ),
{
    let j = Json::object().with_text("name", call.function.name.as_str()).with_text(
        "args",
        call.function.arguments.as_str(),
    );
    SseItem { event: "tool_call", json: render(&j) }
}

/// The text of a tool's output, whether it is an answer or an error.
pub open spec fn output_text(o: Result<String, String>) -> Seq<char> {
    match o {
        Ok(s) => s@,
        Err(e) => e@,
    }
}

/// The event of a tool's result. The duration in milliseconds is not an integer
/// and is given as a document.
pub fn tool_result_event(call: &ToolCall, result: &ToolResult, duration_ms: Json) -> (r: SseItem)
    ensures
        r.event@ == "tool_result"@,
        r.json@ == json_text(
            JVal::object().with("name"@, JVal::Str(call@.name)).with(
                "result"@,
                JVal::Str(shown_result(output_text(result.output))),
            ).with("duration_ms"@, duration_ms@),
        ),
{
    let text = match &result.output {
        Ok(s) => s.as_str(),
        Err(e) => e.as_str(),
    };
    let shown = display_result(text);
    let j = Json::object().with_text("name", call.function.name.as_str()).with_text(
        "result",
        shown.as_str(),
    ).with("duration_ms", duration_ms);
    SseItem { event: "tool_result", json: render(&j) }
}

/// The last event of a step that succeeded.
pub fn complete_event(session: &str, response: &Message) -> (r: SseItem)
    ensures
        r.event@ == "complete"@,
        r.json@ == json_text(
            JVal::object().with("session_id"@, JVal::Str(session@)).with(
                "response"@,
                JVal::Str(or_empty(response@.content)),
            ),
        ),
{
    let text = match &response.content {
        Some(s) => copy(s.as_str()),
        None => String::new(),
    };
    let j = Json::object().with_text("session_id", session).with_text("response", text.as_str());
    SseItem { event: "complete", json: render(&j) }
}

/// The event of an error.
pub fn error_event(error: &str) -> (r: SseItem)
    ensures
        r.event@ == "error"@,
        r.json@ == json_text(JVal::object().with("message"@, JVal::Str(error@))),
{
    SseItem { event: "error", json: render(&Json::object().with_text("message", error)) }
}

/// What a task runs with.
#[derive(Debug)]
pub struct EngineSettings {
    pub system_prompt: String,
    pub max_steps: usize,
    pub credits_per_step: u64,
    pub budget_allocated: u64,
    pub ttl_seconds: i64,
    pub permitted_tools: Vec<String>,
    pub denied_tools: Vec<String>,
}

/// What a task runs with: what the request says, and defaults for the rest.
pub fn run_engine(req: EngineRequest) -> (r: (EngineSettings, Task))
    ensures
        r.1 == req.task,
        r.0.system_prompt@ == (match req.system_prompt {
            Some(s) => s@,
            None => "You are a helpful assistant."@,
        }),
        r.0.max_steps == (match req.max_steps {
            Some(n) => n,
            None => 50,
        }),
        r.0.credits_per_step == (match req.credits_per_step {
            Some(n) => n,
            None => 1,
        }),
        r.0.budget_allocated == (match req.budget_allocated {
            Some(n) => n,
            None => 0,
        }),
        r.0.ttl_seconds == (match req.ttl_seconds {
            Some(n) => n,
            None => 3600,
        }),
        match req.permitted_tools {
            Some(v) => r.0.permitted_tools == v,
            None => r.0.permitted_tools@.len() == 0,
        },
        match req.denied_tools {
            Some(v) => r.0.denied_tools == v,
            None => r.0.denied_tools@.len() == 0,
        },
{
    let prompt = match &req.system_prompt {
        Some(s) => Some(s.as_str()),
        None => None,
    };
    let settings = EngineSettings {
        system_prompt: system_prompt(prompt),
        max_steps: match req.max_steps {
            Some(n) => n,
            None => 50,
        },
        credits_per_step: match req.credits_per_step {
            Some(n) => n,
            None => 1,
        },
        budget_allocated: match req.budget_allocated {
            Some(n) => n,
            None => 0,
        },
        ttl_seconds: match req.ttl_seconds {
            Some(n) => n,
            None => 3600,
        },
        permitted_tools: match req.permitted_tools {
            Some(v) => v,
            None => Vec::new(),
        },
        denied_tools: match req.denied_tools {
            Some(v) => v,
            None => Vec::new(),
        },
    };
    (settings, req.task)
}

/// The tools as they are listed.
pub fn tools(names: &Vec<String>) -> (r: Vec<ToolInfo>)
    ensures
        r@.len() == names@.len(),
        forall|i: int| 0 <= i < r@.len() ==> (#[trigger] r@[i]).name@ == names@[i]@,
{
    let mut out: Vec<ToolInfo> = Vec::new();
    let n: usize = names.len();
    let mut i: usize = 0;
    while i < n
        invariant
            i <= n,
            n == names@.len(),
            out@.len() == i,
            forall|j: int| 0 <= j < i ==> (#[trigger] out@[j]).name@ == names@[j]@,
        decreases n - i,
    {
        out.push(ToolInfo { name: copy(names[i].as_str()) });
        i += 1;
    }
    out
}

} // verus!
