use agnt::backend_trait::BackendError;
use agnt::json::{parse, render, Json};
use agnt::message::{FunctionCall, Message, ToolCall, UsageStats};
use agnt::net::backend::Backend;
use agnt::net::convert::{
    from_anthropic_response, openai_reply, to_anthropic_messages, to_openai_messages,
};
use agnt::net::retry::{jittered, redact_secrets, with_retry, xorshift_jitter, RetryError, RetryStep};
use agnt::net::rounding::spread_by;
use agnt::net::stream::{parse_anthropic_stream, parse_openai_stream, read_sse_line, OpenAiStream};

#[test]
fn debug_impl_redacts_api_key() {
    let b = Backend::openai("gpt-4o-mini", "sk-super-secret-key");
    let s = b.debug_text();
    assert!(s.contains("<redacted>"), "debug output: {}", s);
    assert!(
        !s.contains("sk-super-secret-key"),
        "secret leaked in debug output: {}",
        s
    );
}

#[test]
fn redact_secrets_strips_auth_headers() {
    let raw = "line1\nAuthorization: Bearer sk-xyz\nx-api-key: abc\nother\n";
    let out = redact_secrets(raw);
    assert!(!out.contains("sk-xyz"));
    assert!(!out.contains("abc"));
    assert!(out.contains("line1"));
    assert!(out.contains("other"));
}

#[test]
fn with_retry_zero_max_returns_err_not_panic() {
    let r = with_retry(0);
    assert!(r.is_err());
    assert!(r.err().unwrap().contains("max must be >= 1"));
}

#[test]
fn with_retry_build_error_is_not_retried() {
    let mut run = with_retry(5).ok().unwrap();
    let step = run.failed(RetryError::Build("tls init blew up".into()), None);
    assert!(
        matches!(step, RetryStep::GiveUp(ref e) if e.contains("tls init blew up")),
        "build errors must not be retried"
    );
}

#[test]
fn jitter_stays_within_bounds() {
    let mut state = 1u64;
    for _ in 0..1000 {
        let j = jittered(1000, &mut state, None);
        assert!(j <= 1200, "j={}", j);
        // Lower bound: 1000 - 200 = 800, but floor is 0.
        assert!(j >= 800, "j={}", j);
    }
}

#[test]
fn delays_are_spread_as_floating_point_numbers_are() {
    // One at which an exact computation would give 523.
    assert_eq!(spread_by(500, ((124u64 << 50) - 1) / 25), 524);
    let mut x = 88_172_645_463_325_252u64;
    let mut check = |base: u64| {
        xorshift_jitter(&mut x, None);
        for y in [x >> 11, 0, 1, (1 << 52) - 1, 1 << 52, (1 << 52) + 1, (1 << 53) - 1] {
            let j = (y as f64) / ((1u64 << 53) as f64) * 2.0 - 1.0;
            let expected = (base as f64 + (base as f64) * 0.20 * j).max(0.0) as u64;
            assert_eq!(spread_by(base, y), expected, "base {base}, y {y}");
        }
    };
    for base in 0..2000u64 {
        check(base);
    }
    for shift in 0..64 {
        for less in 0..4u64 {
            check((u64::MAX >> shift).saturating_sub(less));
            check((1u64 << shift).saturating_add(less));
            check((1u64 << shift) / 5 * 3 + less);
        }
    }
}

#[test]
fn attempts_are_bounded() {
    let mut run = with_retry(3).ok().unwrap();
    let mut waits = 0;
    loop {
        match run.failed(RetryError::Transport("reset".into()), Some(7)) {
            RetryStep::Wait(_) => waits += 1,
            RetryStep::GiveUp(e) => {
                assert!(e.contains("reset"), "{e}");
                break;
            }
        }
    }
    assert_eq!(waits, 2);
    let mut run = with_retry(3).ok().unwrap();
    assert!(matches!(
        run.failed(RetryError::Status(400, "bad".into()), None),
        RetryStep::GiveUp(_)
    ));
    let mut run = with_retry(3).ok().unwrap();
    assert!(matches!(
        run.failed(RetryError::Status(429, "slow down".into()), Some(3)),
        RetryStep::Wait(_)
    ));
    let mut state = 1u64;
    assert_eq!(xorshift_jitter(&mut state, Some(5)), state);
}

#[test]
fn a_fresh_generator_is_seeded_from_the_clock() {
    let mut state = 1u64;
    let mut fresh = 0u64;
    // 1 ^ 1 << 13 = 8193; 8193 ^ 8193 >> 7 = 8257; 8257 ^ 8257 << 17 = 1082269761.
    assert_eq!(xorshift_jitter(&mut state, None), 1_082_269_761);
    assert_eq!(xorshift_jitter(&mut fresh, Some(0)), 1_082_269_761);
    assert_eq!(fresh, state);
    // Once it has a state, the clock does not matter.
    assert_eq!(jittered(1000, &mut fresh, Some(9)), jittered(1000, &mut state, None));
    let mut unread = 0u64;
    let mut default = 0x9E37_79B9_7F4A_7C16u64;
    assert_eq!(xorshift_jitter(&mut unread, None), xorshift_jitter(&mut default, None));
}

#[test]
fn openai_stream_parses_content_and_tool_call() {
    let data = "data: {\"choices\":[{\"delta\":{\"content\":\"hel\"}}]}\n\
        data: {\"choices\":[{\"delta\":{\"content\":\"lo\"}}]}\n\
        data: {\"choices\":[{\"delta\":{\"tool_calls\":[{\"index\":0,\"id\":\"call_1\",\"function\":{\"name\":\"f\",\"arguments\":\"{\\\"x\\\":1}\"}}]}}]}\n\
        data: [DONE]\n";
    let (captured, msg) = parse_openai_stream(data);
    assert_eq!(captured, "hello");
    assert_eq!(msg.content.as_deref(), Some("hello"));
    let tcs = msg.tool_calls.expect("tool_calls");
    assert_eq!(tcs.len(), 1);
    assert_eq!(tcs[0].id, "call_1");
    assert_eq!(tcs[0].function.name, "f");
    assert_eq!(tcs[0].function.arguments, "{\"x\":1}");
}

#[test]
fn streams_report_usage_and_end() {
    let mut s = OpenAiStream::new();
    assert_eq!(s.take_line("data: {\"choices\":[{\"delta\":{\"content\":\"a\"}}]}"), Some("a".into()));
    assert_eq!(
        s.take_line("data: {\"choices\":[],\"usage\":{\"prompt_tokens\":3,\"completion_tokens\":4}}"),
        None
    );
    assert!(!s.is_done());
    assert_eq!(s.take_line("data: [DONE]"), None);
    assert!(s.is_done());
    let m = s.finish();
    assert_eq!(m.usage, Some(UsageStats { prompt_tokens: 3, completion_tokens: 4 }));
    assert_eq!(read_sse_line("data: x\r\n").as_deref(), Some("data: x"));
    assert_eq!(read_sse_line("\n").as_deref(), Some(""));
    assert_eq!(read_sse_line(""), None);
}

fn assistant_with_call() -> Message {
    Message {
        role: "assistant".into(),
        content: None,
        tool_calls: Some(vec![ToolCall {
            id: "call_1".into(),
            call_type: "function".into(),
            function: FunctionCall { name: "list_dir".into(), arguments: "{}".into() },
        }]),
        tool_call_id: None,
        name: None,
        usage: None,
    }
}

fn tool_message(content: Option<&str>) -> Message {
    Message {
        role: "tool".into(),
        content: content.map(|c| c.to_string()),
        tool_calls: None,
        tool_call_id: Some("call_1".into()),
        name: None,
        usage: None,
    }
}

#[test]
fn to_openai_messages_content_never_null_for_assistant() {
    let msgs = vec![Message::plain("user", "hi"), assistant_with_call(), tool_message(None)];
    let out = to_openai_messages(&msgs);
    // user message: content should be present as-is
    assert_eq!(out[0].text_field("content"), Some("hi"));
    // assistant with tool_calls, no text: content must be "" not null/missing
    assert_eq!(
        out[1].text_field("content"),
        Some(""),
        "assistant content must be empty string, not null"
    );
    // tool message with no content: must be "" not null/missing
    assert_eq!(
        out[2].text_field("content"),
        Some(""),
        "tool content must be empty string, not null"
    );
}

#[test]
fn anthropic_messages_hold_blocks() {
    let msgs = vec![
        Message::plain("system", "be brief"),
        Message::plain("user", "hi"),
        assistant_with_call(),
        tool_message(Some("a.txt")),
    ];
    let (system, turns) = to_anthropic_messages(&msgs);
    assert_eq!(system, "be brief");
    assert_eq!(turns.len(), 3);
    assert_eq!(turns[0].text_field("role"), Some("user"));
    assert_eq!(turns[1].text_field("role"), Some("assistant"));
    let call = &turns[1].array_field("content").unwrap()[0];
    assert_eq!(call.text_field("type"), Some("tool_use"));
    assert_eq!(call.text_field("name"), Some("list_dir"));
    assert_eq!(turns[2].text_field("role"), Some("user"));
    let result = &turns[2].array_field("content").unwrap()[0];
    assert_eq!(result.text_field("type"), Some("tool_result"));
    assert_eq!(result.text_field("tool_use_id"), Some("call_1"));
}

#[test]
fn anthropic_stream_parses_text_and_tool_use() {
    let data = "data: {\"type\":\"content_block_start\",\"index\":0,\"content_block\":{\"type\":\"text\"}}\n\
        data: {\"type\":\"content_block_delta\",\"index\":0,\"delta\":{\"type\":\"text_delta\",\"text\":\"hi\"}}\n\
        data: {\"type\":\"content_block_start\",\"index\":1,\"content_block\":{\"type\":\"tool_use\",\"id\":\"t1\",\"name\":\"lookup\"}}\n\
        data: {\"type\":\"content_block_delta\",\"index\":1,\"delta\":{\"type\":\"input_json_delta\",\"partial_json\":\"{\\\"q\\\":\\\"x\\\"}\"}}\n\
        data: {\"type\":\"message_stop\"}\n";
    let (captured, msg) = parse_anthropic_stream(data);
    assert_eq!(captured, "hi");
    assert_eq!(msg.content.as_deref(), Some("hi"));
    let tcs = msg.tool_calls.expect("tool_calls");
    assert_eq!(tcs.len(), 1);
    assert_eq!(tcs[0].id, "t1");
    assert_eq!(tcs[0].function.name, "lookup");
    assert_eq!(tcs[0].function.arguments, "{\"q\":\"x\"}");
}

#[test]
fn whole_replies_are_read() {
    let v = parse(
        "{\"content\":[{\"type\":\"text\",\"text\":\"hi\"},\
         {\"type\":\"tool_use\",\"id\":\"t1\",\"name\":\"f\",\"input\":{\"x\":1}}]}",
    )
    .unwrap();
    let m = from_anthropic_response(&v).unwrap();
    assert_eq!(m.content.as_deref(), Some("hi"));
    assert_eq!(m.tool_calls.unwrap()[0].function.arguments, "{\"x\":1}");
    assert!(from_anthropic_response(&parse("{}").unwrap()).is_err());
    let o = parse("{\"choices\":[{\"message\":{\"role\":\"assistant\",\"content\":\"x\"}}]}").unwrap();
    assert_eq!(openai_reply(&o).unwrap().text_field("content"), Some("x"));
    assert!(openai_reply(&parse("{}").unwrap()).is_err());
}

#[test]
fn requests_name_model_and_address() {
    let msgs = vec![Message::plain("user", "hi")];
    let tools = Json::array();
    let plan = Backend::ollama("m").chat(&msgs, &tools, false);
    assert_eq!(plan.url, "http://localhost:11434/v1/chat/completions");
    assert_eq!(plan.body.text_field("model"), Some("m"));
    let plan = Backend::openai("m", "k").with_base_url("http://x/v1").chat(&msgs, &tools, true);
    assert_eq!(plan.url, "http://x/v1/chat/completions");
    assert!(plan.headers.iter().any(|(k, v)| k == "Authorization" && v == "Bearer k"));
    let plan = Backend::anthropic("m", "k").chat(&msgs, &tools, false);
    assert!(plan.url.ends_with("/messages"));
    assert!(plan.headers.iter().any(|(k, v)| k == "x-api-key" && v == "k"));
    assert!(render(&plan.body).contains("\"max_tokens\""));
    let t = Backend::ollama("m").timeouts();
    assert_eq!((t.connect_ms, t.read_ms), (10_000, 120_000));
    let t = Backend::ollama("m").with_timeouts(1, 2).timeouts();
    assert_eq!((t.connect_ms, t.read_ms), (1, 2));
}

#[test]
fn backend_errors_have_texts() {
    assert!(BackendError::Transport("t".into()).to_text().contains("t"));
    assert!(BackendError::Http { code: 500, body: "b".into() }.to_text().contains("500"));
    assert!(BackendError::Parse("p".into()).to_text().contains("p"));
    assert!(BackendError::Retry("r".into()).to_text().contains("r"));
    assert!(!BackendError::Provider("q".into()).to_text().is_empty());
}
