//! Client side of the Model Context Protocol over a pipe: framing, requests and
//! replies.
use vstd::prelude::*;
use vstd::string::*;
use crate::decimal::{dec, dec_int, decimal, decimal_signed};
use crate::json::{
    items_view, json_text, record_text, render, render_record, JVal, Json,
};
use crate::pieces::trimmed;
use crate::search::trim;
use crate::text::{cat2, cat3, cat4, cat5, copy, same};

verus! {

/// The protocol version that the client speaks.
pub const PROTOCOL_VERSION: &'static str = "2024-11-05";

/// Seconds to wait for a reply.
pub const REQUEST_TIMEOUT_SECS: u64 = 30;

/// Bytes that a line of the server may have.
pub const MAX_LINE_BYTES: usize = 4194304;

/// Why an operation failed.
#[derive(Debug)]
pub enum McpError {
    /// The pipe or the process failed.
    Io(String),
    /// The server broke the protocol, or reported an error.
    Protocol(String),
    /// No reply came in time.
    Timeout,
    /// The server is gone.
    Closed,
}

impl McpError {
    /// The error's text.
    pub open spec fn text(&self) -> Seq<char> {
        match self {
            McpError::Io(m) => "mcp io: "@ + m@,
            McpError::Protocol(m) => "mcp protocol: "@ + m@,
            McpError::Timeout => "mcp timeout"@,
            McpError::Closed => "mcp channel closed"@,
        }
    }

    /// The error as a line of text.
    pub fn to_text(&self) -> (r: String)
        ensures
            r@ == self.text(),
    {
        match self {
            McpError::Io(m) => cat2("mcp io: ", m.as_str()),
            McpError::Protocol(m) => cat2("mcp protocol: ", m.as_str()),
            McpError::Timeout => copy("mcp timeout"),
            McpError::Closed => copy("mcp channel closed"),
        }
    }
}

/// What is known of a tool of the server.
#[derive(Debug)]
pub struct McpToolInfo {
    pub name: String,
    pub description: String,
    pub input_schema: Json,
}

/// The schema of a tool that gives none.
pub fn default_schema() -> (r: Json)
    ensures
        r@ == JVal::object().with("type"@, JVal::Str("object"@)),
{
    Json::object().with_text("type", "object")
}

/// How a read ended.
#[derive(Clone, Copy, Debug, PartialEq, Eq, Structural)]
pub enum BoundedRead {
    /// The stream is over.
    Eof,
    /// A line was read.
    Line,
}

/// Why a read failed.
#[derive(Clone, Copy, Debug, PartialEq, Eq, Structural)]
pub enum BoundedReadError {
    /// The line is too long.
    Overflow,
}

/// Position of the first line feed at or after `i`, or the length.
pub open spec fn newline_pos(b: Seq<u8>, i: int) -> int
    decreases b.len() - i,
{
    if i < 0 || i >= b.len() {
        b.len() as int
    } else if b[i] == 10 {
        i
    } else {
        newline_pos(b, i + 1)
    }
}

proof fn lemma_newline_pos(b: Seq<u8>, i: int)
    requires
        0 <= i <= b.len(),
    ensures
        i <= newline_pos(b, i) <= b.len(),
        newline_pos(b, i) < b.len() ==> b[newline_pos(b, i)] == 10,
        forall|j: int| i <= j < newline_pos(b, i) ==> b[j] != 10,
    decreases b.len() - i,
{
    if i < b.len() && b[i] != 10 {
        lemma_newline_pos(b, i + 1);
    }
}

/// The bytes up to and with the first line feed; all where there is none.
pub open spec fn first_line(b: Seq<u8>) -> Seq<u8> {
    let i = newline_pos(b, 0);
    if i < b.len() {
        b.take(i + 1)
    } else {
        b
    }
}

/// A line without its line feed and a carriage return before it.
pub open spec fn chomped(line: Seq<u8>) -> Seq<u8> {
    let a = if line.len() > 0 && line.last() == 10 {
        line.drop_last()
    } else {
        line
    };
    if a.len() > 0 && a.last() == 13 {
        a.drop_last()
    } else {
        a
    }
}

/// What a chunk of input leads to.
#[derive(Clone, Copy, Debug, PartialEq, Eq, Structural)]
pub enum ChunkEnd {
    /// The line goes on.
    More,
    /// The line is complete.
    Line,
    /// The line is too long.
    Overflow,
}

/// How much of a chunk is taken.
#[derive(Clone, Copy, Debug, PartialEq, Eq, Structural)]
pub struct ChunkStep {
    pub consumed: usize,
    pub end: ChunkEnd,
}

fn find_newline(b: &[u8]) -> (r: usize)
    ensures
        r == newline_pos(b@, 0),
        r <= b@.len(),
{
    let n: usize = b.len();
    let mut i: usize = 0;
    while i < n
        invariant
            i <= n,
            n == b@.len(),
            newline_pos(b@, 0) == newline_pos(b@, i as int),
        decreases n - i,
    {
        if b[i] == 10 {
            return i;
        }
        i += 1;
    }
    n
}

fn push_bytes(buf: &mut Vec<u8>, b: &[u8], n: usize)
    requires
        n <= b@.len(),
    ensures
        final(buf)@ == old(buf)@ + b@.take(n as int),
{
    let ghost before = buf@;
    let mut i: usize = 0;
    assert(before + b@.take(0) =~= before);
    while i < n
        invariant
            i <= n <= b@.len(),
            before == old(buf)@,
            buf@ == before + b@.take(i as int),
        decreases n - i,
    {
        buf.push(b[i]);
        assert(buf@ =~= before + b@.take(i as int + 1));
        i += 1;
    }
}

/// How many bytes a line may have with its line feed.
pub open spec fn line_cap(limit: nat) -> nat {
    if limit < usize::MAX {
        limit + 1
    } else {
        usize::MAX as nat
    }
}

/// How many bytes a line that has `n` may still take.
pub open spec fn room_after(n: nat, limit: nat) -> nat {
    if n > line_cap(limit) {
        0
    } else {
        (line_cap(limit) - n) as nat
    }
}

/// Takes the part of a chunk that belongs to the current line. The line may have
/// `limit` bytes besides its line feed. A complete line is left in the buffer
/// without its line break.
pub fn take_chunk(buf: &mut Vec<u8>, chunk: &[u8], limit: usize) -> (r: ChunkStep)
    ensures
        ({
            let piece = first_line(chunk@);
            let whole = old(buf)@ + piece;
            let room = room_after(old(buf)@.len(), limit as nat);
            if whole.len() > line_cap(limit as nat) {
                &&& r.end == ChunkEnd::Overflow
                &&& r.consumed == room
                &&& final(buf)@ == old(buf)@ + piece.take(room as int)
            } else if newline_pos(chunk@, 0) < chunk@.len() {
                &&& r.end == ChunkEnd::Line
                &&& r.consumed == piece.len()
                &&& final(buf)@ == chomped(whole)
            } else {
                &&& r.end == ChunkEnd::More
                &&& r.consumed == chunk@.len()
                &&& final(buf)@ == whole
            }
        }),
        r.consumed <= chunk@.len(),
{
    let i: usize = find_newline(chunk);
    let done: bool = i < chunk.len();
    let take: usize = if done {
        i + 1
    } else {
        chunk.len()
    };
    let ghost piece = first_line(chunk@);
    let ghost whole = buf@ + piece;
    assert(piece =~= chunk@.take(take as int));
    let cap: usize = limit.saturating_add(1);
    let room: usize = cap.saturating_sub(buf.len());
    if buf.len() > cap || take > room {
        push_bytes(buf, chunk, room);
        assert(chunk@.take(room as int) =~= piece.take(room as int));
        return ChunkStep { consumed: room, end: ChunkEnd::Overflow };
    }
    push_bytes(buf, chunk, take);
    assert(buf@ =~= whole);
    if done {
        proof {
            lemma_newline_pos(chunk@, 0);
            assert(whole.last() == 10);
        }
        buf.pop();
        assert(buf@ =~= whole.drop_last());
        if buf.len() > 0 && buf[buf.len() - 1] == 13 {
            buf.pop();
        }
        assert(buf@ =~= chomped(whole));
        return ChunkStep { consumed: take, end: ChunkEnd::Line };
    }
    ChunkStep { consumed: take, end: ChunkEnd::More }
}

/// The outcome of reading on from the bytes that are left, where `held` was read of
/// the line before: the whole line without its break, the end of the stream, or an
/// overflow.
pub open spec fn line_outcome(held: Seq<u8>, rest: Seq<u8>, limit: nat) -> Result<
    Option<Seq<u8>>,
    BoundedReadError,
> {
    let line = held + first_line(rest);
    if rest.len() == 0 {
        Ok(None)
    } else if line.len() > line_cap(limit) {
        Err(BoundedReadError::Overflow)
    } else if newline_pos(rest, 0) < rest.len() {
        Ok(Some(chomped(line)))
    } else {
        Ok(None)
    }
}

/// Reads one line of at most `limit` bytes from `data`, starting at `pos`, onto the
/// end of the buffer.
pub fn read_bounded_line(data: &[u8], pos: &mut usize, buf: &mut Vec<u8>, limit: usize) -> (r: Result<
    BoundedRead,
    BoundedReadError,
>)
    requires
        *old(pos) <= data@.len(),
    ensures
        ({
            let rest = data@.skip(*old(pos) as int);
            let room = room_after(old(buf)@.len(), limit as nat);
            match line_outcome(old(buf)@, rest, limit as nat) {
                Err(e) => {
                    &&& r == Err::<BoundedRead, BoundedReadError>(e)
                    &&& final(buf)@ == old(buf)@ + rest.take(room as int)
                    &&& *final(pos) == *old(pos) + room
                },
                Ok(Some(line)) => {
                    &&& r == Ok::<BoundedRead, BoundedReadError>(BoundedRead::Line)
                    &&& final(buf)@ == line
                    &&& *final(pos) == *old(pos) + first_line(rest).len()
                },
                Ok(None) => {
                    &&& r == Ok::<BoundedRead, BoundedReadError>(BoundedRead::Eof)
                    &&& final(buf)@ == old(buf)@ + rest
                    &&& *final(pos) == data@.len()
                },
            }
        }),
        *old(pos) <= *final(pos) <= data@.len(),
{
    let start: usize = *pos;
    let ghost rest = data@.skip(start as int);
    if start == data.len() {
        assert(buf@ + rest =~= buf@);
        return Ok(BoundedRead::Eof);
    }
    let chunk = vstd::slice::slice_subrange(data, start, data.len());
    assert(chunk@ =~= rest);
    proof {
        lemma_newline_pos(rest, 0);
    }
    let step = take_chunk(buf, chunk, limit);
    *pos = start + step.consumed;
    proof {
        let room = room_after(old(buf)@.len(), limit as nat) as int;
        if step.end == ChunkEnd::Overflow {
            assert(first_line(rest).take(room) =~= rest.take(room));
        }
    }
    match step.end {
        ChunkEnd::Overflow => Err(BoundedReadError::Overflow),
        ChunkEnd::Line => Ok(BoundedRead::Line),
        ChunkEnd::More => Ok(BoundedRead::Eof),
    }
}

/// A line that is read never exceeds its bound.
pub proof fn lines_are_bounded(held: Seq<u8>, rest: Seq<u8>, limit: nat)
    ensures
        match line_outcome(held, rest, limit) {
            Ok(Some(line)) => line.len() <= limit,
            _ => true,
        },
{
    lemma_newline_pos(rest, 0);
    let line = held + first_line(rest);
    if newline_pos(rest, 0) < rest.len() {
        assert(line.last() == 10);
    }
}

/// A line that arrives in two chunks is taken like one that arrives whole.
pub proof fn chunks_of_a_line_add_up(a: Seq<u8>, b: Seq<u8>)
    requires
        newline_pos(a, 0) == a.len(),
    ensures
        first_line(a + b) == a + first_line(b),
        (newline_pos(a + b, 0) < (a + b).len()) == (newline_pos(b, 0) < b.len()),
{
    lemma_newline_pos(a, 0);
    lemma_newline_pos(b, 0);
    lemma_newline_pos(a + b, 0);
    let i = newline_pos(a + b, 0);
    let j = newline_pos(b, 0);
    if i < a.len() {
        assert((a + b)[i] == a[i]);
    } else {
        if i < a.len() + j {
            assert((a + b)[i] == b[i - a.len()]);
        } else if i > a.len() + j {
            assert((a + b)[a.len() + j] == b[j]);
        }
    }
    assert(first_line(a + b) =~= a + first_line(b));
}

/// The error of a line that is too long.
pub fn overflow_message() -> (r: String)
    ensures
        r@ == "mcp line exceeded "@ + dec(MAX_LINE_BYTES as nat) + " bytes"@,
{
    let n = decimal(MAX_LINE_BYTES as u64);
    cat3("mcp line exceeded ", n.as_str(), " bytes")
}

/// A call of the server as a line of text.
pub open spec fn request_text(id: u64, method: Seq<char>, params: Option<JVal>) -> Seq<char> {
    let base = JVal::object().with("jsonrpc"@, JVal::Str("2.0"@)).with("id"@, JVal::UInt(id)).with(
        "method"@,
        JVal::Str(method),
    );
    record_text(
        match params {
            Some(p) => base.with("params"@, p),
            None => base,
        },
    ).push('\n')
}

/// A notification of the server as a line of text.
pub open spec fn notification_text(method: Seq<char>, params: Option<JVal>) -> Seq<char> {
    let base = JVal::object().with("jsonrpc"@, JVal::Str("2.0"@)).with("method"@, JVal::Str(method));
    record_text(
        match params {
            Some(p) => base.with("params"@, p),
            None => base,
        },
    ).push('\n')
}

/// The content of an optional document.
pub open spec fn opt_json(o: Option<Json>) -> Option<JVal> {
    match o {
        Some(j) => Some(j@),
        None => None,
    }
}

/// A notification of the server.
pub fn notify(method: &str, params: Option<Json>) -> (r: String)
    ensures
        r@ == notification_text(method@, opt_json(params)),
{
    let base = Json::object().with_text("jsonrpc", "2.0").with_text("method", method);
    let j = match params {
        Some(p) => base.with("params", p),
        None => base,
    };
    let mut line = render_record(&j);
    line.push('\n');
    line
}

/// The parameters of the handshake.
pub open spec fn handshake() -> JVal {
    JVal::object().with("protocolVersion"@, JVal::Str(PROTOCOL_VERSION@)).with(
        "capabilities"@,
        JVal::object(),
    ).with(
        "clientInfo"@,
        JVal::object().with("name"@, JVal::Str("agnt-mcp"@)).with("version"@, JVal::Str("0.3.1"@)),
    )
}

/// The parameters of the handshake.
pub fn handshake_params() -> (r: Json)
    ensures
        r@ == handshake(),
{
    let info = Json::object().with_text("name", "agnt-mcp").with_text("version", "0.3.1");
    Json::object().with_text("protocolVersion", PROTOCOL_VERSION).with(
        "capabilities",
        Json::object(),
    ).with("clientInfo", info)
}

/// A reply of the server.
#[derive(Debug)]
pub struct JsonRpcResponse {
    pub id: Option<Json>,
    pub result: Option<Json>,
    /// Code and message of an error.
    pub error: Option<(i64, String)>,
}

/// What a line of the server means for a call.
#[derive(Debug)]
pub enum LineVerdict {
    /// Nothing: it belongs to something else.
    Skip,
    /// The call succeeded.
    Done(Json),
    /// The call failed.
    Failed(McpError),
}

/// The reply names a call.
pub open spec fn replies_to(resp: JsonRpcResponse, id: u64) -> bool {
    resp.id is Some && resp.id->0@.as_uint() == Some(id)
}

/// The numbers of the calls that a client makes.
pub struct McpCalls {
    pub next_id: u64,
}

impl McpCalls {
    pub fn new() -> (r: Self)
        ensures
            r.next_id == 0,
    {
        McpCalls { next_id: 0 }
    }

    /// The number of the next call.
    pub fn alloc_id(&mut self) -> (r: u64)
        requires
            old(self).next_id < u64::MAX,
        ensures
            r == old(self).next_id + 1,
            final(self).next_id == r,
    {
        self.next_id = self.next_id + 1;
        self.next_id
    }

    /// A call of the server: its number, and the line to send.
    pub fn request(&mut self, method: &str, params: Option<Json>) -> (r: (u64, String))
        requires
            old(self).next_id < u64::MAX,
        ensures
            r.0 == old(self).next_id + 1,
            final(self).next_id == r.0,
            r.1@ == request_text(r.0, method@, opt_json(params)),
    {
        let id: u64 = self.alloc_id();
        let base = Json::object().with_text("jsonrpc", "2.0").with("id", Json::UInt(id)).with_text(
            "method",
            method,
        );
        let j = match params {
            Some(p) => base.with("params", p),
            None => base,
        };
        let mut line = render_record(&j);
        line.push('\n');
        (id, line)
    }
}

/// What a line means for the call with number `id`. A blank line, a notification
/// and a late reply mean nothing.
pub fn await_response(id: u64, line: &str, parsed: Result<JsonRpcResponse, String>) -> (r:
    LineVerdict)
    ensures
        if trim(line@).len() == 0 {
            r is Skip
        } else {
            match parsed {
                Err(e) => r is Failed && r->Failed_0 is Protocol && r->Failed_0->Protocol_0@
                    == "parse response: "@ + e@ + " (line: "@ + trim(line@) + ")"@,
                Ok(resp) => if !replies_to(resp, id) {
                    r is Skip
                } else {
                    match resp.error {
                        Some((code, message)) => r is Failed && r->Failed_0 is Protocol
                            && r->Failed_0->Protocol_0@ == "jsonrpc error "@ + dec_int(code as int)
                            + ": "@ + message@,
                        None => r is Done && r->Done_0@ == (match resp.result {
                            Some(j) => j@,
                            None => JVal::Null,
                        }),
                    }
                },
            }
        },
{
    let t = trimmed(line);
    if t.as_str().is_empty() {
        return LineVerdict::Skip;
    }
    let resp = match parsed {
        Ok(x) => x,
        Err(e) => {
            return LineVerdict::Failed(
                McpError::Protocol(
                    cat5("parse response: ", e.as_str(), " (line: ", t.as_str(), ")"),
                ),
            );
        },
    };
    let hit: bool = match &resp.id {
        Some(j) => match j.as_u64() {
            Some(n) => n == id,
            None => false,
        },
        None => false,
    };
    if !hit {
        return LineVerdict::Skip;
    }
    match resp.error {
        Some((code, message)) => {
            let n = decimal_signed(code);
            LineVerdict::Failed(
                McpError::Protocol(
                    cat4("jsonrpc error ", n.as_str(), ": ", message.as_str()),
                ),
            )
        },
        None => match resp.result {
            Some(j) => LineVerdict::Done(j),
            None => LineVerdict::Done(Json::Null),
        },
    }
}

/// The tools in the server's list.
pub fn list_tools(result: &Json) -> (r: Result<&Vec<Json>, McpError>)
    ensures
        match r {
            Ok(v) => result@.field("tools"@) == JVal::Arr(items_view(v@)),
            Err(e) => result@.field("tools"@).as_items() is None && e is Protocol && e->Protocol_0@
                == "tools/list: missing tools array"@,
        },
{
    match result.array_field("tools") {
        Some(v) => Ok(v),
        None => Err(McpError::Protocol(copy("tools/list: missing tools array"))),
    }
}

/// The parameters of a tool call.
pub fn call_params(name: &str, args: Json) -> (r: Json)
    ensures
        r@ == JVal::object().with("name"@, JVal::Str(name@)).with("arguments"@, args@),
{
    Json::object().with_text("name", name).with("arguments", args)
}

/// The text blocks of a result, each on a line of its own.
pub open spec fn text_blocks(blocks: Seq<JVal>) -> Seq<char>
    decreases blocks.len(),
{
    if blocks.len() == 0 {
        Seq::empty()
    } else {
        let before = text_blocks(blocks.drop_last());
        let b = blocks.last();
        match b.field("text"@).as_text() {
            Some(t) if b.field("type"@).as_text() == Some("text"@) => (if before.len() > 0 {
                before.push('\n')
            } else {
                before
            }) + t,
            _ => before,
        }
    }
}

/// What a tool call returned: its text blocks, unless the result is marked as an
/// error or has no content.
pub fn call_tool(result: &Json) -> (r: Result<String, McpError>)
    ensures
        if result@.field("isError"@).as_flag() == Some(true) {
            r is Err && r->Err_0 is Protocol && r->Err_0->Protocol_0@ == "tools/call isError: "@
                + json_text(result@)
        } else {
            match result@.field("content"@) {
                JVal::Arr(blocks) => r is Ok && r->Ok_0@ == text_blocks(blocks),
                _ => r is Err && r->Err_0 is Protocol && r->Err_0->Protocol_0@
                    == "tools/call: missing content"@,
            }
        },
{
    let failed: bool = match result.get("isError") {
        Some(v) => match v.as_bool() {
            Some(b) => b,
            None => false,
        },
        None => false,
    };
    if failed {
        let text = render(result);
        return Err(McpError::Protocol(cat2("tools/call isError: ", text.as_str())));
    }
    let content = match result.array_field("content") {
        Some(c) => c,
        None => {
            return Err(McpError::Protocol(copy("tools/call: missing content")));
        },
    };
    let mut out = String::new();
    let n: usize = content.len();
    let mut i: usize = 0;
    let ghost all = items_view(content@);
    assert(all.take(0) =~= Seq::empty());
    while i < n
        invariant
            i <= n,
            n == content@.len(),
            all == items_view(content@),
            out@ == text_blocks(all.take(i as int)),
        decreases n - i,
    {
        proof {
            assert(all.take(i as int + 1).drop_last() =~= all.take(i as int));
            assert(all[i as int] == content@[i as int]@);
        }
        let is_text: bool = match content[i].text_field("type") {
            Some(t) => same(t, "text"),
            None => false,
        };
        if is_text {
            if let Some(t) = content[i].text_field("text") {
                if !out.as_str().is_empty() {
                    out.push('\n');
                }
                out.append(t);
            }
        }
        i += 1;
    }
    assert(all.take(n as int) =~= all);
    Ok(out)
}

/// A tool of a server, as an agent sees it.
#[derive(Debug)]
pub struct McpTool {
    pub name: String,
    pub description: String,
    pub schema: Json,
}

impl McpTool {
    pub fn new(info: McpToolInfo) -> (r: Self)
        ensures
            r.name == info.name,
            r.description == info.description,
            r.schema == info.input_schema,
    {
        McpTool { name: info.name, description: info.description, schema: info.input_schema }
    }
}

/// The first line of some bytes ends with their first line feed; bytes without one are a
/// line that has not ended.
pub proof fn a_line_ends_with_the_first_line_feed(a: Seq<u8>, b: Seq<u8>)
    requires
        forall|i: int| 0 <= i < a.len() ==> #[trigger] a[i] != 10,
    ensures
        first_line(a) == a,
        newline_pos(a, 0) == a.len(),
        first_line(a.push(10) + b) == a.push(10),
        newline_pos(a.push(10) + b, 0) == a.len(),
{
    lemma_newline_pos(a, 0);
    let s = a.push(10) + b;
    lemma_newline_pos(s, 0);
    let n = a.len() as int;
    assert(s[n] == 10);
    let i = newline_pos(s, 0);
    assert(i == n) by {
        if i < n {
            assert(s[i] == a[i]);
        }
    }
    assert(s.take(n + 1) =~= a.push(10));
}

/// A line is given without its line feed and without a carriage return before it.
pub proof fn a_line_is_given_without_its_break(a: Seq<u8>)
    requires
        a.len() == 0 || a.last() != 13,
    ensures
        chomped(a.push(10)) == a,
        chomped(a.push(13).push(10)) == a,
{
    assert(a.push(10).drop_last() =~= a);
    assert(a.push(13).push(10).drop_last() =~= a.push(13));
    assert(a.push(13).drop_last() =~= a);
}

/// A line that fits is read whole, together with what was held of it; one that is too
/// long is an overflow; one that does not end is none.
pub proof fn a_line_that_fits_is_read_whole(
    held: Seq<u8>,
    a: Seq<u8>,
    b: Seq<u8>,
    limit: nat,
)
    requires
        forall|i: int| 0 <= i < a.len() ==> #[trigger] a[i] != 10,
        limit < usize::MAX,
    ensures
        held.len() + a.len() <= limit ==> line_outcome(held, a.push(10) + b, limit) == Ok::<
            Option<Seq<u8>>,
            BoundedReadError,
        >(Some(chomped((held + a).push(10)))),
        held.len() + a.len() > limit ==> line_outcome(held, a.push(10) + b, limit) is Err,
        held.len() + a.len() <= limit ==> line_outcome(held, a, limit) == Ok::<
            Option<Seq<u8>>,
            BoundedReadError,
        >(None),
{
    a_line_ends_with_the_first_line_feed(a, b);
    assert(held + a.push(10) =~= (held + a).push(10));
}

/// The texts among some blocks.
pub open spec fn block_texts(blocks: Seq<JVal>) -> Seq<Seq<char>> {
    blocks.filter(
        |b: JVal| b.field("type"@) == JVal::Str("text"@) && b.field("text"@) is Str,
    ).map_values(|b: JVal| b.field("text"@)->Str_0)
}

/// The text blocks of a result are put together, each on a line of its own; other blocks
/// are left out.
pub proof fn text_blocks_make_up_the_result(blocks: Seq<JVal>)
    requires
        forall|i: int|
            0 <= i < block_texts(blocks).len() ==> (#[trigger] block_texts(blocks)[i]).len() > 0,
    ensures
        text_blocks(blocks) == crate::search::join(block_texts(blocks), seq!['\n']),
        block_texts(blocks).len() > 0 ==> text_blocks(blocks).len() > 0,
    decreases blocks.len(),
{
    let is_text = |b: JVal| b.field("type"@) == JVal::Str("text"@) && b.field("text"@) is Str;
    let all = block_texts(blocks);
    if blocks.len() == 0 {
        assert(all =~= Seq::empty());
    } else {
        let p = blocks.drop_last();
        let last = blocks.last();
        assert(blocks =~= p.push(last));
        p.lemma_filter_push(last, is_text);
        let old = block_texts(p);
        if is_text(last) {
            let t = last.field("text"@)->Str_0;
            assert(all =~= old.push(t));
            assert(all[old.len() as int] == t);
            assert forall|i: int| 0 <= i < old.len() implies (#[trigger] old[i]).len() > 0 by {
                assert(all[i] == old[i]);
            }
            text_blocks_make_up_the_result(p);
            assert(all.drop_last() =~= old);
            let s = text_blocks(p);
            if old.len() == 0 {
                assert(s + t =~= t);
            } else {
                assert(s.push('\n') + t =~= s + seq!['\n'] + t);
            }
        } else {
            assert(all =~= old);
            text_blocks_make_up_the_result(p);
        }
    }
}

/// A request names the protocol, its identifier, its method and its parameters, and is
/// one line; a notification is the same without an identifier.
pub proof fn a_request_is_one_line(id: u64, method: Seq<char>, params: JVal)
    ensures
        request_text(id, method, Some(params)) == record_text(
            JVal::Obj(
                seq![
                    ("jsonrpc"@, JVal::Str("2.0"@)),
                    ("id"@, JVal::UInt(id)),
                    ("method"@, JVal::Str(method)),
                    ("params"@, params),
                ],
            ),
        ).push('\n'),
        request_text(id, method, None) == record_text(
            JVal::Obj(
                seq![
                    ("jsonrpc"@, JVal::Str("2.0"@)),
                    ("id"@, JVal::UInt(id)),
                    ("method"@, JVal::Str(method)),
                ],
            ),
        ).push('\n'),
        notification_text(method, Some(params)) == record_text(
            JVal::Obj(
                seq![
                    ("jsonrpc"@, JVal::Str("2.0"@)),
                    ("method"@, JVal::Str(method)),
                    ("params"@, params),
                ],
            ),
        ).push('\n'),
{
    let a = JVal::object().with("jsonrpc"@, JVal::Str("2.0"@));
    let b = a.with("id"@, JVal::UInt(id)).with("method"@, JVal::Str(method));
    assert(b->Obj_0 =~= seq![
        ("jsonrpc"@, JVal::Str("2.0"@)),
        ("id"@, JVal::UInt(id)),
        ("method"@, JVal::Str(method)),
    ]);
    assert(b.with("params"@, params)->Obj_0 =~= seq![
        ("jsonrpc"@, JVal::Str("2.0"@)),
        ("id"@, JVal::UInt(id)),
        ("method"@, JVal::Str(method)),
        ("params"@, params),
    ]);
    assert(a.with("method"@, JVal::Str(method)).with("params"@, params)->Obj_0 =~= seq![
        ("jsonrpc"@, JVal::Str("2.0"@)),
        ("method"@, JVal::Str(method)),
        ("params"@, params),
    ]);
}

/// A response belongs to the request whose identifier it has, and to no other.
pub proof fn a_response_names_its_request(r: JsonRpcResponse, id: u64, other: u64)
    ensures
        replies_to(r, id) <==> r.id is Some && r.id->0@ == JVal::UInt(id),
        replies_to(r, id) && replies_to(r, other) ==> id == other,
{
}

/// A text block is added behind those before it, on a line of its own.
pub proof fn a_text_block_is_added_behind(blocks: Seq<JVal>, b: JVal)
    ensures
        ({
            let before = text_blocks(blocks);
            let after = text_blocks(blocks.push(b));
            if b.field("type"@) == JVal::Str("text"@) && b.field("text"@) is Str {
                let t = b.field("text"@)->Str_0;
                if before.len() == 0 {
                    after == t
                } else {
                    after == before.push('\n') + t
                }
            } else {
                after == before
            }
        }),
{
    assert(blocks.push(b).drop_last() =~= blocks);
    let before = text_blocks(blocks);
    if before.len() == 0 && b.field("text"@) is Str {
        assert(before + b.field("text"@)->Str_0 =~= b.field("text"@)->Str_0);
    }
}

/// The error says of what kind it is, and then what happened.
pub proof fn an_error_tells_its_kind(e: McpError)
    ensures
        match e {
            McpError::Io(s) => e.text() == "mcp io: "@ + s@,
            McpError::Protocol(s) => e.text() == "mcp protocol: "@ + s@,
            McpError::Timeout => e.text() == "mcp timeout"@,
            McpError::Closed => e.text() == "mcp channel closed"@,
        },
{
}

} // verus!
