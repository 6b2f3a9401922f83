use agnt::agent::{escape_attr, panic_to_string, Agent, ToolQuota};
use agnt::builder::AgentBuilder;
use agnt::json::{parse, render, Json};
use agnt::message::{FunctionCall, Message, ToolCall, UsageStats};
use agnt::observer::{Disposition, NoOpObserver, Observer};
use agnt::step::{CallDecision, Ending, Notice, StepAction, StepEvent, ToolOutcome};
use agnt::store_trait::StoreError;
use agnt::tool::{described, ErasedAdapter, Registry, Tool, TypedTool};
use std::sync::atomic::{AtomicUsize, Ordering};
use std::sync::Arc;

fn msg(role: &str, content: &str) -> Message {
    Message::plain(role, content)
}

#[test]
fn agent_windowing_empty_session_returns_all() {
    let mut a = Agent::new("sys");
    a.max_window = 10;
    a.messages.push(msg("user", "hi"));
    a.messages.push(msg("assistant", "hello"));
    let w = a.windowed();
    assert_eq!(w.len(), 3);
    assert_eq!(w[0].role, "system");
}

#[test]
fn agent_windowing_preserves_system_and_starts_at_user() {
    let mut a = Agent::new("sys");
    a.max_window = 5;
    for i in 0..20 {
        let role = if i % 2 == 0 { "user" } else { "assistant" };
        a.messages.push(msg(role, &format!("m{}", i)));
    }
    let w = a.windowed();
    assert_eq!(w[0].role, "system", "system slot preserved");
    assert!(w.len() <= 5, "window respects max_window: {}", w.len());
    assert_eq!(w[1].role, "user", "first post-system must be user");
}

#[test]
fn agent_windowing_skips_orphan_tool_results() {
    let mut a = Agent::new("sys");
    a.max_window = 4;
    a.messages.push(msg("user", "do thing"));
    a.messages.push(tool_call("c1", "t"));
    a.messages.push(Message {
        role: "tool".into(),
        content: Some("result".into()),
        tool_calls: None,
        tool_call_id: Some("c1".into()),
        name: Some("t".into()),
        usage: None,
    });
    a.messages.push(msg("assistant", "done"));
    a.messages.push(msg("user", "next"));
    a.messages.push(msg("assistant", "ok"));
    let w = a.windowed();
    assert_eq!(w[0].role, "system");
    assert_eq!(w[1].role, "user");
}

#[test]
fn window_start_is_none_when_history_fits() {
    let mut a = Agent::new("sys");
    a.max_window = 10;
    a.messages.push(msg("user", "hi"));
    assert!(
        a.window_start().is_none(),
        "short history must not allocate a window vec"
    );
}

#[test]
fn frame_tool_output_wraps_and_escapes() {
    let a = Agent::new("sys");
    let framed = a.frame_tool_output("fetch", "call_1", "hello");
    assert_eq!(
        framed,
        r#"<tool_output name="fetch" id="call_1">hello</tool_output>"#
    );
}

#[test]
fn frame_tool_output_truncates_past_cap() {
    let mut a = Agent::new("sys");
    a.max_tool_result_bytes = 8;
    let framed = a.frame_tool_output("t", "id", "0123456789ABCDEF");
    assert!(framed.contains("truncated=\"true\""));
    assert!(framed.contains("raw_bytes=\"16\""));
    assert!(framed.contains("01234567"));
    assert!(!framed.contains("89ABCDEF"));
}

#[test]
fn frame_tool_output_respects_utf8_boundary() {
    let mut a = Agent::new("sys");
    a.max_tool_result_bytes = 3; // would split a 3-byte char if naive
    // "é" is 2 bytes, "中" is 3 bytes — "é中" is 5 bytes
    let framed = a.frame_tool_output("t", "id", "é中");
    // truncated, and must not panic mid-char
    assert!(framed.contains("truncated=\"true\""));
}

#[test]
fn frame_tool_output_escapes_attrs() {
    let a = Agent::new("sys");
    let framed = a.frame_tool_output("na\"me", "id&1", "x");
    assert!(framed.contains("name=\"na&quot;me\""));
    assert!(framed.contains("id=\"id&amp;1\""));
}

#[test]
fn frame_tool_output_caps_characters() {
    let mut a = Agent::new("sys");
    assert_eq!(a.max_tool_output_chars, 8000);
    a.max_tool_output_chars = 2;
    let framed = a.frame_tool_output("t", "id", "中中中");
    assert!(framed.contains(">中中<"), "{framed}");
    assert_eq!(escape_attr("<&>\""), "&lt;&amp;&gt;&quot;");
}

/// Tool that counts invocations and returns a fixed payload.
struct CountingTool {
    hits: Arc<AtomicUsize>,
    payload: String,
}

impl Tool for CountingTool {
    fn name(&self) -> String {
        "counter".into()
    }
    fn description(&self) -> String {
        "test counter".into()
    }
    fn schema(&self) -> Json {
        parse("{\"type\":\"object\",\"properties\":{}}").unwrap()
    }
    fn call(&self, _args: Json) -> Result<String, String> {
        self.hits.fetch_add(1, Ordering::SeqCst);
        Ok(self.payload.clone())
    }
}

fn tool_call(id: &str, name: &str) -> Message {
    Message {
        role: "assistant".into(),
        content: None,
        tool_calls: Some(vec![ToolCall {
            id: id.into(),
            call_type: "function".into(),
            function: FunctionCall { name: name.into(), arguments: "{}".into() },
        }]),
        tool_call_id: None,
        name: None,
        usage: None,
    }
}

/// Drives a step: the script gives one reply per turn, and a plain answer when it
/// is used up. Each tool call takes `call_ns`.
fn drive(
    a: &mut Agent,
    observer: &dyn Observer,
    script: Vec<Message>,
    call_ns: u64,
) -> Result<String, String> {
    let mut script = script.into_iter();
    let mut elapsed = 0u64;
    let mut action = a.step(StepEvent::Begin("go".into()), elapsed);
    loop {
        action = match action {
            StepAction::Chat => {
                let reply = script.next().unwrap_or_else(|| msg("assistant", "done"));
                a.step(StepEvent::Reply(Ok(reply)), elapsed)
            }
            StepAction::Gate => {
                let verdicts: Vec<Disposition> =
                    a.run.calls.iter().map(|c| observer.should_dispatch(c)).collect();
                a.step(StepEvent::Verdicts(verdicts), elapsed)
            }
            StepAction::Dispatch => {
                let mut outcomes = Vec::new();
                for (i, d) in a.run.decisions.iter().enumerate() {
                    if let CallDecision::Allow = d {
                        let c = &a.run.calls[i];
                        let args = parse(&c.function.arguments).unwrap_or(Json::Null);
                        let ending = match a.tools.dispatch(&c.function.name, args) {
                            Ok(s) => Ending::Output(s),
                            Err(e) => Ending::Failed(e),
                        };
                        elapsed += call_ns;
                        outcomes.push(ToolOutcome { ending, duration_us: call_ns / 1000 });
                    }
                }
                a.step(StepEvent::Outcomes(outcomes), elapsed)
            }
            StepAction::Done(r) => return r,
        }
    }
}

fn counting(payload: &str) -> (Agent, Arc<AtomicUsize>) {
    let hits = Arc::new(AtomicUsize::new(0));
    let mut a = Agent::new("sys");
    a.tools.register(Box::new(CountingTool { hits: hits.clone(), payload: payload.into() }));
    (a, hits)
}

#[test]
fn quota_max_calls_refuses_after_limit_within_single_step() {
    let (mut a, hits) = counting("ok");
    a.tool_quotas.insert(
        "counter".into(),
        ToolQuota { max_calls: Some(1), ..Default::default() },
    );
    let script = vec![tool_call("c1", "counter"), tool_call("c2", "counter")];
    let out = drive(&mut a, &NoOpObserver, script, 0).unwrap();
    assert_eq!(hits.load(Ordering::SeqCst), 1, "tool must run exactly once");
    assert_eq!(out, "done");
    // Refusal message should appear in the transcript.
    let refused = a.messages.iter().any(|m| {
        m.role == "tool"
            && m.content
                .as_deref()
                .map(|c| c.contains("quota exceeded"))
                .unwrap_or(false)
    });
    assert!(refused, "second call must produce a quota-refused tool message");
}

#[test]
fn quota_max_result_bytes_truncates_before_framing() {
    let (mut a, _) = counting("0123456789ABCDEF");
    a.tool_quotas.insert(
        "counter".into(),
        ToolQuota { max_result_bytes: Some(4), ..Default::default() },
    );
    drive(&mut a, &NoOpObserver, vec![tool_call("c1", "counter")], 0).unwrap();
    let tool_msg = a
        .messages
        .iter()
        .find(|m| m.role == "tool")
        .expect("tool message present");
    let body = tool_msg.content.as_deref().unwrap();
    assert!(body.contains("0123"), "kept prefix");
    assert!(!body.contains("456789"), "truncated tail");
}

struct DenyObserver;

impl Observer for DenyObserver {
    fn should_dispatch(&self, _call: &ToolCall) -> Disposition {
        Disposition::Refused("policy".into())
    }
}

#[test]
fn observer_refuses_dispatch_and_tool_never_runs() {
    let (mut a, hits) = counting("should not run");
    drive(&mut a, &DenyObserver, vec![tool_call("c1", "counter")], 0).unwrap();
    assert_eq!(hits.load(Ordering::SeqCst), 0, "observer must block dispatch");
    let refused = a.messages.iter().any(|m| {
        m.role == "tool"
            && m.content
                .as_deref()
                .map(|c| c.contains("refused by observer"))
                .unwrap_or(false)
    });
    assert!(refused);
}

const MS: u64 = 1_000_000;

#[test]
fn max_step_duration_terminates_runaway_loop() {
    // Two tool-call turns, each of 80ms. The deadline is 100ms so the *second*
    // turn must fail before the second tool runs.
    let (mut a, hits) = counting("awake");
    a.max_step_duration = Some(100 * MS);
    let script = vec![
        tool_call("c1", "counter"),
        tool_call("c2", "counter"),
        tool_call("c3", "counter"),
    ];
    let err = drive(&mut a, &NoOpObserver, script, 80 * MS).expect_err("deadline must fire");
    assert!(err.contains("step deadline"), "got: {}", err);
    assert!(hits.load(Ordering::SeqCst) <= 2);
}

#[test]
fn no_deadline_means_no_deadline() {
    let (mut a, _) = counting("awake");
    // No deadline set.
    let out = drive(&mut a, &NoOpObserver, vec![tool_call("c1", "counter")], 20 * MS).unwrap();
    assert_eq!(out, "done");
}

#[test]
fn panicked_tool_preserves_attribution_in_transcript() {
    let mut a = Agent::new("sys");
    assert!(matches!(a.step(StepEvent::Begin("go".into()), 0), StepAction::Chat));
    let reply = tool_call("pc1", "panicker");
    assert!(matches!(a.step(StepEvent::Reply(Ok(reply)), 0), StepAction::Gate));
    let verdicts = vec![Disposition::Allow];
    assert!(matches!(a.step(StepEvent::Verdicts(verdicts), 0), StepAction::Dispatch));
    let outcome = ToolOutcome {
        ending: Ending::Panicked(panic_to_string(Some("deliberate test panic".into()))),
        duration_us: 1,
    };
    assert!(matches!(a.step(StepEvent::Outcomes(vec![outcome]), 0), StepAction::Chat));
    // The tool message must carry the original call id and tool name
    // so the SQLite tool_log and downstream observers can attribute
    // the panic correctly.
    let tool_msg = a
        .messages
        .iter()
        .find(|m| m.role == "tool")
        .expect("tool message present");
    assert_eq!(tool_msg.name.as_deref(), Some("panicker"));
    assert_eq!(tool_msg.tool_call_id.as_deref(), Some("pc1"));
    let body = tool_msg.content.as_deref().unwrap();
    assert!(
        body.contains("panicked") && body.contains("deliberate test panic"),
        "panic body: {}",
        body
    );
}

#[test]
fn calls_stay_with_their_answers() {
    let (mut a, _) = counting("ok");
    drive(&mut a, &NoOpObserver, vec![tool_call("c1", "counter")], 0).unwrap();
    let roles: Vec<&str> = a.messages.iter().map(|m| m.role.as_str()).collect();
    assert_eq!(roles, vec!["system", "user", "assistant", "tool", "assistant"]);
    let calls = a.messages[2].tool_calls.as_ref().expect("the calls stay");
    assert_eq!(calls.len(), 1);
    assert_eq!(calls[0].id, "c1");
    assert_eq!(a.messages[3].tool_call_id.as_deref(), Some("c1"));
    assert_eq!(a.messages[3].name.as_deref(), Some("counter"));
}

#[test]
fn the_observer_hears_of_the_usage_at_the_end() {
    let mut a = Agent::new("sys");
    let action = a.step(StepEvent::Begin("go".into()), 0);
    assert!(a.notices(&action).is_empty());
    let mut reply = msg("assistant", "ok");
    reply.usage = Some(UsageStats { prompt_tokens: 3, completion_tokens: 4 });
    let action = a.step(StepEvent::Reply(Ok(reply)), 0);
    let notices = a.notices(&action);
    assert_eq!(notices.len(), 2);
    assert!(matches!(
        notices[0],
        Notice::Usage(UsageStats { prompt_tokens: 3, completion_tokens: 4 })
    ));
    assert!(matches!(&notices[1], Notice::Ended(t) if t == "ok"));
    a.step(StepEvent::Begin("more".into()), 0);
    let action = a.step(StepEvent::Reply(Err("offline".into())), 0);
    assert!(matches!(a.notices(&action)[0], Notice::Usage(UsageStats { prompt_tokens: 0, .. })));
    assert!(matches!(&a.notices(&action)[1], Notice::Failed(e) if e == "offline"));
}

#[test]
fn the_third_identical_call_ends_the_step() {
    let (mut a, hits) = counting("same");
    let script = vec![
        tool_call("c1", "counter"),
        tool_call("c2", "counter"),
        tool_call("c3", "counter"),
        tool_call("c4", "counter"),
    ];
    let err = drive(&mut a, &NoOpObserver, script, 0).unwrap_err();
    assert!(err.contains("loop detected"), "{err}");
    assert_eq!(hits.load(Ordering::SeqCst), 2);
}

#[test]
fn the_third_identical_call_of_one_reply_ends_the_step() {
    let (mut a, hits) = counting("same");
    let mut reply = tool_call("c1", "counter");
    for id in ["c2", "c3"] {
        let more = tool_call(id, "counter").tool_calls.unwrap();
        reply.tool_calls.as_mut().unwrap().extend(more);
    }
    let err = drive(&mut a, &NoOpObserver, vec![reply], 0).unwrap_err();
    assert!(err.contains("loop detected"), "{err}");
    assert_eq!(hits.load(Ordering::SeqCst), 2);
}

#[test]
fn turns_are_bounded() {
    let (mut a, _) = counting("ok");
    a.max_steps = 1;
    let err = drive(&mut a, &NoOpObserver, vec![tool_call("c1", "counter")], 0).unwrap_err();
    assert_eq!(err, "max steps exceeded");
    let mut b = Agent::new("sys");
    let mut reply = msg("assistant", "ok");
    reply.usage = Some(UsageStats { prompt_tokens: 3, completion_tokens: 4 });
    assert_eq!(drive(&mut b, &NoOpObserver, vec![reply], 0).unwrap(), "ok");
    assert_eq!(b.run.usage, UsageStats { prompt_tokens: 3, completion_tokens: 4 });
}

#[test]
fn backend_errors_end_the_step() {
    let mut a = Agent::new("sys");
    a.step(StepEvent::Begin("go".into()), 0);
    match a.step(StepEvent::Reply(Err("offline".into())), 0) {
        StepAction::Done(Err(e)) => assert!(e.contains("offline"), "{e}"),
        _ => panic!("the step has to end"),
    }
}

#[test]
fn stored_history_replaces_the_current_one() {
    let mut a = Agent::new("sys");
    assert_eq!(a.unsaved(&Ok(vec![])), 1);
    let full = a.attach_store(Ok(vec![]), Err(StoreError::Io("full".into())), "s0");
    assert!(full.unwrap_err().contains("full"));
    assert_eq!(a.session, "default");
    assert_eq!(a.attach_store(Ok(vec![]), Ok(()), "s1"), Ok(()));
    assert_eq!(a.session, "s1");
    let stored = vec![msg("system", "old"), msg("user", "hi")];
    assert_eq!(a.attach_store(Ok(stored), Ok(()), "s2"), Ok(()));
    assert_eq!(a.messages.len(), 2);
    let err = a.attach_store(Err(StoreError::Io("disk".into())), Ok(()), "s3").unwrap_err();
    assert!(err.contains("disk"));
    assert_eq!(a.session, "s2");
}

#[test]
fn builder_sets_defaults() {
    let (agent, _) = AgentBuilder::new().system("sys").build().unwrap();
    assert_eq!(agent.max_steps, 25);
    assert_eq!(agent.max_window, 40);
    assert_eq!(agent.messages[0].role, "system");
    assert_eq!(agent.messages[0].content.as_deref(), Some("sys"));
}

#[test]
fn builder_overrides() {
    let (agent, _) = AgentBuilder::new()
        .system("sys")
        .max_steps(3)
        .max_window(5)
        .max_tool_result_bytes(1024)
        .build()
        .unwrap();
    assert_eq!(agent.max_steps, 3);
    assert_eq!(agent.max_window, 5);
    assert_eq!(agent.max_tool_result_bytes, 1024);
}

struct Dummy(&'static str);

impl Tool for Dummy {
    fn name(&self) -> String {
        self.0.into()
    }
    fn description(&self) -> String {
        "dummy".into()
    }
    fn schema(&self) -> Json {
        parse("{ \"type\": \"object\" }").unwrap()
    }
    fn call(&self, _args: Json) -> Result<String, String> {
        Ok("".into())
    }
}

fn dummy(name: &'static str) -> Box<dyn Tool> {
    Box::new(Dummy(name))
}

#[test]
fn builder_accepts_multiple_tools() {
    let entry = |t: Box<dyn Tool>| described(t.name(), t.description(), t.schema(), t);
    let (agent, _) = AgentBuilder::new()
        .tool(dummy("a"))
        .tool(dummy("b"))
        .tools(vec![entry(dummy("c")), entry(dummy("d"))])
        .build()
        .unwrap();
    assert_eq!(agent.tools.names(), vec!["a", "b", "c", "d"]);
}

#[test]
fn builder_takes_up_a_store() {
    let (agent, unsaved) = AgentBuilder::default()
        .system("sys")
        .max_tool_output_chars(7)
        .max_step_duration(9)
        .store(Ok(vec![]), "s")
        .build()
        .unwrap();
    assert_eq!(unsaved, 1);
    assert_eq!(agent.session, "s");
    assert_eq!(agent.max_tool_output_chars, 7);
    assert_eq!(agent.max_step_duration, Some(9));
    let failed = AgentBuilder::new().store(Err(StoreError::Open("locked".into())), "s").build();
    assert!(failed.err().unwrap().contains("locked"));
}

struct AddArgs {
    a: i64,
    b: i64,
}

#[derive(Debug, PartialEq, Eq)]
struct AddOut {
    sum: i64,
}

struct Add;

fn int_field(args: &Json, key: &str) -> Result<i64, String> {
    match args.get(key) {
        Some(Json::UInt(n)) => Ok(*n as i64),
        Some(Json::NegInt(n)) => Ok(*n),
        _ => Err(format!("field `{key}` is not an integer")),
    }
}

impl TypedTool for Add {
    type Args = AddArgs;
    type Output = AddOut;
    fn name() -> String {
        "add".into()
    }
    fn description() -> String {
        "Add two integers.".into()
    }
    fn schema() -> Json {
        parse(
            "{\"type\": \"object\", \"properties\": {\"a\": {\"type\": \"integer\"}, \
             \"b\": {\"type\": \"integer\"}}, \"required\": [\"a\", \"b\"]}",
        )
        .unwrap()
    }
    fn read_args(args: Json) -> Result<AddArgs, String> {
        Ok(AddArgs { a: int_field(&args, "a")?, b: int_field(&args, "b")? })
    }
    fn call(&self, args: AddArgs) -> Result<AddOut, String> {
        Ok(AddOut { sum: args.a + args.b })
    }
    fn write_output(out: AddOut) -> Result<String, String> {
        Ok(format!("{{\"sum\":{}}}", out.sum))
    }
}

#[test]
fn typed_tool_roundtrips_through_erased_adapter() {
    let mut reg = Registry::new();
    reg.register_typed(Add);
    let out = reg
        .dispatch("add", parse("{\"a\": 2, \"b\": 3}").unwrap())
        .expect("dispatch");
    assert_eq!(out, r#"{"sum":5}"#);
}

#[test]
fn typed_tool_args_deserialize_error_is_string() {
    let mut reg = Registry::new();
    reg.register_typed(Add);
    let err = reg
        .dispatch("add", parse("{\"a\": \"not-a-number\"}").unwrap())
        .unwrap_err();
    assert!(err.contains("args deserialize"), "got: {}", err);
}

#[test]
fn erased_adapter_name_and_description_are_const() {
    let adapter = ErasedAdapter::new(Add);
    assert_eq!(adapter.name(), "add");
    assert_eq!(adapter.description(), "Add two integers.");
}

#[test]
fn add_call_roundtrips_typed() {
    let out = Add.call(AddArgs { a: 2, b: 3 }).unwrap();
    assert_eq!(out, AddOut { sum: 5 });
}

#[test]
fn add_registers_into_registry_and_dispatches() {
    let mut reg = Registry::new();
    reg.register_typed(Add);
    let out = reg
        .dispatch("add", parse("{\"a\": 10, \"b\": 20}").unwrap())
        .unwrap();
    assert_eq!(out, r#"{"sum":30}"#);
}

struct ReadFileArgs {
    path: String,
}

struct ReadFileOut {
    bytes: usize,
}

struct ReadFile;

impl TypedTool for ReadFile {
    type Args = ReadFileArgs;
    type Output = ReadFileOut;
    fn name() -> String {
        "read_file".into()
    }
    fn description() -> String {
        "Read a file at the given path. Returns the number of bytes read (mocked).".into()
    }
    fn schema() -> Json {
        parse("{\"type\": \"object\"}").unwrap()
    }
    fn read_args(args: Json) -> Result<ReadFileArgs, String> {
        match args.text_field("path") {
            Some(p) => Ok(ReadFileArgs { path: p.into() }),
            None => Err("missing field `path`".into()),
        }
    }
    fn call(&self, args: ReadFileArgs) -> Result<ReadFileOut, String> {
        Ok(ReadFileOut { bytes: args.path.len() })
    }
    fn write_output(out: ReadFileOut) -> Result<String, String> {
        Ok(format!("{{\"bytes\":{}}}", out.bytes))
    }
}

#[test]
fn read_file_calls_through() {
    let out = ReadFile
        .call(ReadFileArgs { path: "hello".to_string() })
        .unwrap();
    assert_eq!(out.bytes, 5);
}

struct Divide;

impl TypedTool for Divide {
    type Args = (i64, i64);
    type Output = i64;
    fn name() -> String {
        "divide".into()
    }
    fn description() -> String {
        "Divide a by b.".into()
    }
    fn schema() -> Json {
        parse("{\"type\": \"object\"}").unwrap()
    }
    fn read_args(args: Json) -> Result<(i64, i64), String> {
        Ok((int_field(&args, "a")?, int_field(&args, "b")?))
    }
    fn call(&self, args: (i64, i64)) -> Result<i64, String> {
        if args.1 == 0 {
            Err("division by zero".into())
        } else {
            Ok(args.0 / args.1)
        }
    }
    fn write_output(out: i64) -> Result<String, String> {
        Ok(format!("{{\"quot\":{out}}}"))
    }
}

#[test]
fn divide_error_path_flows_through_erased_adapter() {
    let mut reg = Registry::new();
    reg.register_typed(Divide);
    let err = reg
        .dispatch("divide", parse("{\"a\": 1, \"b\": 0}").unwrap())
        .unwrap_err();
    assert!(err.contains("division by zero"), "got: {}", err);
}

#[test]
fn registries_dispatch_by_name() {
    let mut reg = Registry::default();
    reg.register(dummy("a"));
    reg.register_typed(Add);
    assert_eq!(reg.names(), vec!["a", "add"]);
    assert_eq!(reg.dispatch("nope", Json::Null).unwrap_err(), "unknown tool: nope");
    assert_eq!(
        render(&reg.as_openai_tools().as_array().unwrap()[0]),
        "{\"function\":{\"description\":\"dummy\",\"name\":\"a\",\
         \"parameters\":{\"type\":\"object\"}},\"type\":\"function\"}"
    );
    let shared = Arc::new(reg);
    let proxies = Registry::make_proxies(&shared);
    assert_eq!(proxies.len(), 2);
    assert_eq!(proxies[1].name(), "add");
    assert_eq!(proxies[1].description(), "Add two integers.");
    let out = proxies[1].call(parse("{\"a\": 1, \"b\": 1}").unwrap()).unwrap();
    assert_eq!(out, "{\"sum\":2}");
}
