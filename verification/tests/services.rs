use agnt::codegen::{expand_tool, extract_doc, snake_to_pascal, ReturnShape, Signature};
use agnt::daemon::config::{config_path, Config};
use agnt::daemon::handlers::{
    complete_event, default_session, display_result, error_event, health, run_engine,
    session_start, step, token_event, tool_call_event, tool_result_event, tools, EngineRequest,
};
use agnt::daemon::middleware::{constant_time_eq, require_auth};
use agnt::daemon::state::{validate_session_id, DmnState, SessionError, MAX_SESSIONS};
use agnt::engine::task::{
    BudgetPolicy, ExecutionMode, RecoveryPolicy, RetryPolicy, Task, TaskPayload, TerminalPolicy,
};
use agnt::eval::{
    chrono_now, file_contains, file_exists, names_the_laws, poem_is_complete, print_report,
    reply_contains, run, Measured, Metrics,
};
use agnt::json::{parse, Json};
use agnt::message::{FunctionCall, Message, ToolCall, UsageStats};
use agnt::observer::ToolResult;
use agnt::store::{append_many, log_usage, next_place};

fn signature(name: &str, docs: &[&str]) -> Signature {
    Signature {
        name: name.into(),
        inputs: 1,
        first: Some("Args".into()),
        output: ReturnShape::Path {
            last: "Result".into(),
            angle_brackets: true,
            types: vec!["Out".into(), "String".into()],
        },
        docs: docs.iter().map(|d| d.to_string()).collect(),
    }
}

#[test]
fn add_name_and_description() {
    let x = expand_tool(&signature("add", &[" Add two integers and return their sum."])).unwrap();
    assert_eq!(x.name, "add");
    assert_eq!(x.struct_name, "Add");
    assert_eq!(x.description, "Add two integers and return their sum.");
}

#[test]
fn read_file_has_pascal_struct_name() {
    let x = expand_tool(&signature(
        "read_file",
        &[" Read a file at the given path.", " Returns the number of bytes read (mocked)."],
    ))
    .unwrap();
    assert_eq!(x.name, "read_file");
    assert_eq!(x.struct_name, "ReadFile");
    // Multi-line doc comments are joined with spaces.
    assert_eq!(
        x.description,
        "Read a file at the given path. Returns the number of bytes read (mocked)."
    );
}

#[test]
fn noop_description_falls_back_to_fn_name() {
    let x = expand_tool(&signature("noop", &[])).unwrap();
    assert_eq!(x.name, "noop");
    assert_eq!(x.description, "noop");
    assert_eq!((x.args_ty.as_str(), x.output_ty.as_str(), x.error_ty.as_str()), ("Args", "Out", "String"));
}

#[test]
fn functions_that_cannot_be_tools_are_refused() {
    let mut f = signature("f", &[]);
    f.inputs = 2;
    assert_eq!(
        expand_tool(&f).unwrap_err(),
        "#[tool] expects exactly one function argument (got 2); the argument type becomes TypedTool::Args"
    );
    let mut f = signature("f", &[]);
    f.first = None;
    assert_eq!(
        expand_tool(&f).unwrap_err(),
        "#[tool] cannot be applied to methods taking `self`"
    );
    let mut f = signature("f", &[]);
    f.output = ReturnShape::Missing;
    assert_eq!(
        expand_tool(&f).unwrap_err(),
        "#[tool] functions must return Result<Output, Error>"
    );
    f.output = ReturnShape::Other;
    assert!(expand_tool(&f).unwrap_err().contains("std::result::Result"));
    f.output = ReturnShape::Path {
        last: "Result".into(),
        angle_brackets: true,
        types: vec!["Out".into()],
    };
    assert!(expand_tool(&f).is_err());
}

#[test]
fn names_become_pascal_case() {
    assert_eq!(snake_to_pascal("a_bc__d"), "ABcD");
    assert_eq!(snake_to_pascal("Already"), "Already");
    assert_eq!(snake_to_pascal("ßa"), "SSa");
    assert_eq!(snake_to_pascal("___"), "_Tool");
    assert_eq!(extract_doc(&vec!["  ".into()]), None);
}

#[test]
fn the_daemon_has_defaults() {
    let mut c = Config::default();
    assert_eq!(c.addr(), "127.0.0.1:7770");
    assert_eq!(c.store_db_path(Some("/data")), "/data/dmn/dmn.db");
    assert_eq!(c.store_db_path(None), "/tmp/dmn/dmn.db");
    c.store_path = Some("/x.db".into());
    assert_eq!(c.store_db_path(Some("/data")), "/x.db");
    assert_eq!(config_path(Some("/e.toml"), Some("/c")), "/e.toml");
    assert_eq!(config_path(None, Some("/c")), "/c/dmn/dmn.toml");
    assert!(c.check_start().is_err());
    c.auth_token = "t".into();
    assert!(c.check_start().is_ok());
}

#[test]
fn tool_results_are_sent_as_user_messages_where_so_set() {
    let mut result = Message::plain("tool", "42");
    result.tool_call_id = Some("c1".into());
    result.name = Some("counter".into());
    let talk = vec![
        Message::plain("system", "s"),
        Message::plain("user", "u"),
        Message::plain("assistant", "a"),
        result,
    ];
    let mut c = Config::default();
    let roles = |v: &Vec<Message>| v.iter().map(|m| m.role.clone()).collect::<Vec<_>>();
    assert_eq!(roles(&c.outgoing(&talk)), ["system", "user", "assistant", "tool"]);
    c.tool_result_as_user = true;
    let sent = c.outgoing(&talk);
    assert_eq!(roles(&sent), ["system", "user", "assistant", "user"]);
    assert_eq!(sent[3].content.as_deref(), Some("42"));
    assert_eq!(sent[3].tool_call_id.as_deref(), Some("c1"));
    assert_eq!(sent[3].name.as_deref(), Some("counter"));
    assert!(c.outgoing(&Vec::new()).is_empty());
}

#[test]
fn providers_give_backends() {
    let mut c = Config::default();
    assert_eq!(c.build_backend(None).ok().unwrap().base_url, "http://localhost:11434/v1");
    c.provider = "openai".into();
    assert_eq!(c.key_variable(), Some("OPENAI_API_KEY"));
    assert_eq!(c.build_backend(None).err().unwrap(), "OpenAI API key required");
    assert!(c.build_backend(Some("k")).is_ok());
    c.provider = "anthropic".into();
    assert_eq!(c.build_backend(None).err().unwrap(), "Anthropic API key required");
    c.api_key = Some("k".into());
    c.base_url = Some("http://x".into());
    assert_eq!(c.build_backend(None).ok().unwrap().base_url, "http://x");
    c.provider = "acme".into();
    assert_eq!(c.build_backend(None).err().unwrap(), "unknown provider: acme");
}

#[test]
fn callers_present_the_token() {
    assert!(constant_time_eq(b"abc", b"abc"));
    assert!(!constant_time_eq(b"abc", b"abd"));
    assert!(!constant_time_eq(b"abc", b"ab"));
    assert!(constant_time_eq(b"", b""));
    assert!(require_auth(Some("Bearer secret"), "secret"));
    assert!(!require_auth(Some("Bearer secre"), "secret"));
    assert!(!require_auth(Some("bearer secret"), "secret"));
    assert!(!require_auth(None, "secret"));
}

#[test]
fn sessions_are_bounded() {
    assert!(validate_session_id("a-B_9"));
    assert!(!validate_session_id(""));
    assert!(!validate_session_id("a b"));
    assert!(validate_session_id(&"x".repeat(64)));
    assert!(!validate_session_id(&"x".repeat(65)));
    let mut s = DmnState::new();
    assert_eq!(s.get_or_create_session("a/b", 1), Err(SessionError::BadRequest));
    assert_eq!(s.get_or_create_session("a", 1), Ok("a".to_string()));
    assert_eq!(s.get_or_create_session("b", 2), Ok("b".to_string()));
    assert_eq!(s.get_or_create_session("a", 3), Ok("a".to_string()));
    let list = s.list();
    assert_eq!(list.len(), 2);
    assert_eq!(list[0].id, "a");
    assert_eq!((list[0].created_at, list[0].last_activity, list[0].request_count), (1, 3, 2));
    assert_eq!(list[1].id, "b");
}

#[test]
fn too_many_sessions_are_refused() {
    let mut s = DmnState::new();
    for i in 0..MAX_SESSIONS {
        assert!(s.get_or_create_session(&format!("s{i}"), 0).is_ok());
    }
    assert_eq!(s.get_or_create_session("one-more", 0), Err(SessionError::TooManyRequests));
    assert!(s.get_or_create_session("s5", 0).is_ok());
}

fn call(name: &str) -> ToolCall {
    ToolCall {
        id: "1".into(),
        call_type: "function".into(),
        function: FunctionCall { name: name.into(), arguments: "{}".into() },
    }
}

#[test]
fn events_are_json() {
    assert_eq!(token_event("a").json, "{\"content\":\"a\"}");
    assert_eq!(token_event("a").event, "token");
    assert_eq!(session_start("s", "m").json, "{\"model\":\"m\",\"session_id\":\"s\"}");
    assert_eq!(tool_call_event(&call("f")).json, "{\"args\":\"{}\",\"name\":\"f\"}");
    let result =
        ToolResult { name: "f".into(), output: Err("bad".into()), duration_us: 1500 };
    let ev = tool_result_event(&call("f"), &result, parse("1.5").unwrap());
    assert_eq!(ev.json, "{\"duration_ms\":1.5,\"name\":\"f\",\"result\":\"bad\"}");
    assert_eq!(error_event("e").json, "{\"message\":\"e\"}");
    let mut m = Message::plain("assistant", "hi");
    assert_eq!(complete_event("s", &m).json, "{\"response\":\"hi\",\"session_id\":\"s\"}");
    m.content = None;
    assert_eq!(complete_event("s", &m).json, "{\"response\":\"\",\"session_id\":\"s\"}");
}

#[test]
fn long_results_are_cut() {
    assert_eq!(display_result("short"), "short");
    let long = "x".repeat(3000);
    assert_eq!(
        display_result(&long),
        format!("{}… [952 bytes truncated]", "x".repeat(2048))
    );
    let wide = "é".repeat(1500);
    assert!(display_result(&wide).ends_with("… [952 bytes truncated]"));
}

fn task() -> Task {
    Task {
        task_id: "t".into(),
        mode: ExecutionMode::OneShot,
        retry: RetryPolicy::default(),
        recovery: RecoveryPolicy::default(),
        budget: BudgetPolicy::default(),
        terminal: TerminalPolicy::default(),
        payload: TaskPayload {
            instructions: "do it".into(),
            context_handles: vec![],
            expected_output_schema: None,
            result_handle_key: None,
        },
    }
}

#[test]
fn engine_requests_have_defaults() {
    let (s, t) = run_engine(EngineRequest {
        task: task(),
        system_prompt: None,
        max_steps: None,
        credits_per_step: None,
        budget_allocated: None,
        ttl_seconds: None,
        permitted_tools: None,
        denied_tools: Some(vec!["shell".into()]),
    });
    assert_eq!(t.task_id, "t");
    assert_eq!(s.system_prompt, "You are a helpful assistant.");
    assert_eq!((s.max_steps, s.credits_per_step, s.budget_allocated, s.ttl_seconds), (50, 1, 0, 3600));
    assert!(s.permitted_tools.is_empty());
    assert_eq!(s.denied_tools, vec!["shell".to_string()]);
}

#[test]
fn steps_are_answered() {
    assert_eq!(step("s", Ok("hi".into())).unwrap().response, "hi");
    assert_eq!(step("s", Err("lost".into())).unwrap_err(), "agent step failed: lost");
    let h = health("box", "m", 10_900_000_000, 26_200_000_000, 3);
    assert_eq!((h.status.as_str(), h.uptime_seconds, h.sessions), ("ok", 15, 3));
    assert_eq!(tools(&vec!["a".into()])[0].name, "a");
    assert!(validate_session_id(&default_session()));
}

#[test]
fn rows_follow_each_other() {
    assert_eq!(next_place(None), 0);
    assert_eq!(next_place(Some(4)), 5);
    let rows = append_many(5, &vec!["a".into(), "b".into()]);
    assert_eq!(rows.len(), 2);
    assert_eq!((rows[0].idx, rows[0].json.as_str()), (5, "a"));
    assert_eq!((rows[1].idx, rows[1].json.as_str()), (6, "b"));
    assert!(append_many(0, &vec![]).is_empty());
    assert_eq!(log_usage(u32::MAX, 1).total, 4_294_967_296);
}

#[test]
fn dates_are_those_of_the_calendar() {
    assert_eq!(chrono_now(0), "1970-01-01");
    assert_eq!(chrono_now(86_399), "1970-01-01");
    assert_eq!(chrono_now(951_782_400), "2000-02-29");
    assert_eq!(chrono_now(1_735_689_599), "2024-12-31");
}

#[test]
fn checks_say_what_is_missing() {
    assert!(reply_contains("Hello WORLD", "world").is_ok());
    assert_eq!(reply_contains("a", "B").unwrap_err(), "reply missing 'B'");
    assert!(names_the_laws("The FIRST law and the second LAW").is_ok());
    assert!(names_the_laws("the first law").is_err());
    assert!(file_contains("/w/f", Ok("abc".into()), "f", "bc").is_ok());
    assert_eq!(
        file_contains("/w/f", Ok("a\"c".into()), "f", "z").unwrap_err(),
        "'z' not found in f (content: \"a\\\"c\")"
    );
    assert_eq!(file_contains("/w/f", Err("gone".into()), "f", "z").unwrap_err(), "/w/f: gone");
    assert_eq!(file_exists("/w/f", false).unwrap_err(), "/w/f does not exist");
    let line = "one two three four five\n";
    assert!(poem_is_complete(Ok(line.repeat(4))).is_ok());
    assert_eq!(
        poem_is_complete(Ok(line.repeat(3))).unwrap_err(),
        "poem.txt has 3 lines, expected 4"
    );
    assert_eq!(
        poem_is_complete(Ok(format!("{}\ntoo short\n", line.repeat(4)))).unwrap_err(),
        "line 5 has only 2 words: \"too short\""
    );
    assert_eq!(poem_is_complete(Err("gone".into())).unwrap_err(), "poem.txt: gone");
}

fn measured(tool_calls: Vec<String>, usage: UsageStats) -> Measured {
    Measured { elapsed_ms: 12, turns: 3, tool_calls, usage }
}

#[test]
fn reports_list_the_scenarios() {
    let mut m = Metrics::new();
    m.on_tool_start(&call("write_file"));
    m.on_step_usage(UsageStats { prompt_tokens: 250, completion_tokens: 50 });
    m.on_step_usage(UsageStats { prompt_tokens: u32::MAX, completion_tokens: 0 });
    let (calls, usage) = m.drain();
    assert_eq!(usage, UsageStats { prompt_tokens: u32::MAX, completion_tokens: 50 });
    assert!(m.drain().0.is_empty());
    let small = UsageStats { prompt_tokens: 250, completion_tokens: 50 };
    let ok = run(1, "One", measured(calls, small), Ok("fine".into()), Ok(()), "check failed");
    assert!(ok.passed);
    let bad = run(
        2,
        "Two",
        measured(vec![], UsageStats::default()),
        Ok("hm".into()),
        Err("wrong".into()),
        "check failed",
    );
    assert_eq!(bad.failure.as_deref(), Some("check failed: wrong"));
    let report = print_report(&vec![ok, bad], "2024-12-31");
    assert_eq!(
        report,
        "# agnt End-to-End Eval Report\n\nModel: `gemma4-26b` @ `localhost:8001`  \n\
         Date: `2024-12-31`\n\n## Summary\n\n\
         | Level | Scenario | Pass | Time (ms) | Turns | Tools | Prompt T | Completion T |\n\
         |-------|----------|------|-----------|-------|-------|----------|--------------|\n\
         | L1 | One | ✅ | 12 | 3 | 1 | 250 | 50 |\n\
         | L2 | Two | ❌ | 12 | 3 | 0 | 0 | 0 |\n\
         \n**Passed:** 1/2\n**Total tokens:** 250 prompt + 50 completion = 300 total\n\n\
         ## Scenario Details\n\n\
         ### L1 — One [PASS]\n\n- **Time:** 12ms\n- **Message turns:** 3\n\
         - **Tools called:** [\"write_file\"]\n\
         - **Tokens:** 250 prompt / 50 completion / 300 total\n\
         \n**Reply excerpt:**\n```\nfine\n```\n\n\
         ### L2 — Two [FAIL]\n\n- **Time:** 12ms\n- **Message turns:** 3\n\
         - **Tools called:** []\n\
         - **Tokens:** 0 prompt / 0 completion / 0 total\n\
         - **Failure:** `check failed: wrong`\n\
         \n**Reply excerpt:**\n```\nhm\n```\n\n\
         ## Degradation Analysis\n\n**First failure:** L2 — Two\n\
         **Reason:** check failed: wrong\n\
         \n**Passed levels:** [1]\n\n**Token growth by level:**\n\
         \u{20} L1:    300t  ###\n\u{20} L2:      0t  \n"
    );
}

#[test]
fn failed_replies_have_no_excerpt() {
    let r = run(
        3,
        "Three",
        measured(vec![], UsageStats::default()),
        Err("offline".into()),
        Ok(()),
        "check failed",
    );
    assert!(!r.passed);
    assert_eq!(r.reply_excerpt, "");
    assert_eq!(r.failure.as_deref(), Some("offline"));
    let _ = Json::Null;
}
