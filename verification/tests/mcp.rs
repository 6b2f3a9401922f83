use agnt::json::{parse, render};
use agnt::mcp::{
    await_response, call_params, call_tool, default_schema, handshake_params, list_tools, notify,
    overflow_message, read_bounded_line, take_chunk, BoundedRead, BoundedReadError, ChunkEnd,
    JsonRpcResponse, LineVerdict, McpCalls, McpError, McpTool, McpToolInfo,
};

#[test]
fn list_tools_parses_server_response() {
    let result = parse(
        r#"{"tools":[{"name":"echo","description":"Echo text","inputSchema":{"type":"object","properties":{"text":{"type":"string"}}}}]}"#,
    )
    .unwrap();
    let tools = list_tools(&result).expect("list");
    assert_eq!(tools.len(), 1);
    assert_eq!(tools[0].text_field("name"), Some("echo"));
    assert_eq!(tools[0].text_field("description"), Some("Echo text"));
    assert_eq!(
        render(tools[0].get("inputSchema").unwrap()),
        render(&parse(r#"{"type":"object","properties":{"text":{"type":"string"}}}"#).unwrap())
    );
    assert!(matches!(list_tools(&parse("{}").unwrap()), Err(McpError::Protocol(_))));
}

#[test]
fn call_tool_joins_text_content_blocks() {
    let result = parse(
        r#"{"content":[{"type":"text","text":"hello"},{"type":"text","text":"world"}],"isError":false}"#,
    )
    .unwrap();
    let out = call_tool(&result).expect("call");
    assert_eq!(out, "hello\nworld");
}

#[test]
fn call_tool_is_error_surfaces_protocol_error() {
    let result = parse(r#"{"content":[{"type":"text","text":"bad"}],"isError":true}"#).unwrap();
    let err = call_tool(&result).expect_err("should error");
    assert!(matches!(err, McpError::Protocol(_)), "got {:?}", err);
}

#[test]
fn jsonrpc_error_response_maps_to_protocol_error() {
    let line = r#"{"jsonrpc":"2.0","id":2,"error":{"code":-32601,"message":"method not found"}}"#;
    let response = JsonRpcResponse {
        id: Some(parse("2").unwrap()),
        result: None,
        error: Some((-32601, "method not found".into())),
    };
    match await_response(2, line, Ok(response)) {
        LineVerdict::Failed(McpError::Protocol(m)) => {
            assert!(m.contains("method not found"), "got: {}", m)
        }
        _ => panic!("expected a protocol error"),
    }
}

#[test]
fn other_lines_are_skipped() {
    let other = JsonRpcResponse { id: Some(parse("1").unwrap()), result: None, error: None };
    assert!(matches!(await_response(2, "{}", Ok(other)), LineVerdict::Skip));
    let note = JsonRpcResponse { id: None, result: None, error: None };
    assert!(matches!(await_response(2, "{}", Ok(note)), LineVerdict::Skip));
    assert!(matches!(await_response(2, "  ", Err("EOF".into())), LineVerdict::Skip));
    let mine = JsonRpcResponse {
        id: Some(parse("2").unwrap()),
        result: Some(parse("{\"a\":1}").unwrap()),
        error: None,
    };
    match await_response(2, "{}", Ok(mine)) {
        LineVerdict::Done(v) => assert_eq!(v.uint_field("a"), Some(1)),
        _ => panic!("expected the result"),
    }
}

#[test]
fn requests_are_numbered() {
    let mut calls = McpCalls::new();
    let (a, first) = calls.request("initialize", Some(handshake_params()));
    let (b, second) = calls.request("tools/list", None);
    assert_eq!((a, b), (1, 2));
    let v = parse(&first).unwrap();
    assert_eq!(v.text_field("jsonrpc"), Some("2.0"));
    assert_eq!(v.uint_field("id"), Some(1));
    assert_eq!(v.text_field("method"), Some("initialize"));
    assert_eq!(v.get("params").unwrap().text_field("protocolVersion"), Some("2024-11-05"));
    assert!(!second.contains("params"));
    let note = parse(&notify("notifications/initialized", None)).unwrap();
    assert!(note.get("id").is_none());
    let params = call_params("echo", parse("{\"text\":\"hi\"}").unwrap());
    assert_eq!(params.text_field("name"), Some("echo"));
    assert_eq!(params.get("arguments").unwrap().text_field("text"), Some("hi"));
}

#[test]
fn tools_take_over_what_the_server_says() {
    let info = McpToolInfo {
        name: "echo".into(),
        description: "Echo text".into(),
        input_schema: default_schema(),
    };
    let tool = McpTool::new(info);
    assert_eq!(tool.name, "echo");
    assert_eq!(tool.description, "Echo text");
    assert_eq!(render(&tool.schema), "{\"type\":\"object\"}");
}

#[test]
fn mcp_error_display_is_stable() {
    assert_eq!(McpError::Timeout.to_text(), "mcp timeout");
    assert_eq!(McpError::Closed.to_text(), "mcp channel closed");
    assert!(McpError::Io("x".into()).to_text().contains("io"));
    assert!(McpError::Protocol("x".into())
        .to_text()
        .contains("protocol"));
}

#[test]
fn bounded_reader_accepts_short_line() {
    let input: &[u8] = b"hello\n";
    let mut pos = 0;
    let mut buf = Vec::new();
    let outcome = read_bounded_line(input, &mut pos, &mut buf, 1024)
        .unwrap_or_else(|_| panic!("should accept short line"));
    assert!(matches!(outcome, BoundedRead::Line));
    assert_eq!(buf, b"hello");
}

#[test]
fn bounded_reader_strips_crlf() {
    let input: &[u8] = b"crlf\r\n";
    let mut pos = 0;
    let mut buf = Vec::new();
    read_bounded_line(input, &mut pos, &mut buf, 1024).expect("ok");
    assert_eq!(buf, b"crlf");
}

#[test]
fn bounded_reader_reports_eof_on_empty() {
    let input: &[u8] = b"";
    let mut pos = 0;
    let mut buf = Vec::new();
    match read_bounded_line(input, &mut pos, &mut buf, 1024).expect("ok") {
        BoundedRead::Eof => {}
        BoundedRead::Line => panic!("expected EOF"),
    }
}

#[test]
fn bounded_reader_rejects_oversized_line() {
    // 32 KB of 'x' with no newline should hit the limit.
    let big: Vec<u8> = vec![b'x'; 32 * 1024];
    let mut pos = 0;
    let mut buf = Vec::new();
    let err = read_bounded_line(&big[..], &mut pos, &mut buf, 8 * 1024);
    assert!(matches!(err, Err(BoundedReadError::Overflow)));
}

#[test]
fn bounded_reader_rejects_line_just_over_limit() {
    // N bytes + '\n' where N == limit + 1 should overflow.
    let mut big: Vec<u8> = vec![b'a'; 1025];
    big.push(b'\n');
    let mut pos = 0;
    let mut buf = Vec::new();
    let err = read_bounded_line(&big[..], &mut pos, &mut buf, 1024);
    assert!(matches!(err, Err(BoundedReadError::Overflow)));
}

#[test]
fn bounded_reader_handles_multi_line_stream() {
    let input: &[u8] = b"one\ntwo\nthree\n";
    let mut pos = 0;
    let mut buf = Vec::new();
    read_bounded_line(input, &mut pos, &mut buf, 1024).expect("one");
    assert_eq!(buf, b"one");
    buf.clear();
    read_bounded_line(input, &mut pos, &mut buf, 1024).expect("two");
    assert_eq!(buf, b"two");
    buf.clear();
    read_bounded_line(input, &mut pos, &mut buf, 1024).expect("three");
    assert_eq!(buf, b"three");
    buf.clear();
    match read_bounded_line(input, &mut pos, &mut buf, 1024).expect("eof") {
        BoundedRead::Eof => {}
        BoundedRead::Line => panic!("expected EOF after exhausting input"),
    }
}

#[test]
fn lines_may_come_in_chunks() {
    let mut buf = Vec::new();
    let first = take_chunk(&mut buf, b"he", 10);
    assert_eq!(first.consumed, 2);
    assert!(matches!(first.end, ChunkEnd::More));
    let second = take_chunk(&mut buf, b"llo\nrest", 10);
    assert_eq!(second.consumed, 4);
    assert!(matches!(second.end, ChunkEnd::Line));
    assert_eq!(buf, b"hello");
    assert!(matches!(take_chunk(&mut Vec::new(), b"abcdef", 3).end, ChunkEnd::Overflow));
    let mut held = b"he".to_vec();
    let mut pos = 1;
    read_bounded_line(b"xllo\nrest", &mut pos, &mut held, 10).expect("ok");
    assert_eq!((held.as_slice(), pos), (&b"hello"[..], 5));
    let rest = read_bounded_line(b"xllo\nrest", &mut pos, &mut held, usize::MAX).expect("ok");
    assert!(matches!(rest, BoundedRead::Eof));
    assert_eq!((held.as_slice(), pos), (&b"hellorest"[..], 9));
    let (mut buf, mut pos) = (Vec::new(), 0);
    assert!(read_bounded_line(b"abcdef\n", &mut pos, &mut buf, 3).is_err());
    assert_eq!((buf.as_slice(), pos), (&b"abcd"[..], 4));
    assert!(overflow_message().contains("4194304"));
}
