//! Server-sent events of the two provider families.
//!
//! Each parser is fed one line at a time. It returns the text that arrived with
//! the line, and at the end the assistant message that the stream amounts to.
use vstd::prelude::*;
use vstd::string::*;
use crate::json::{items_view, json_parse, parse, JVal, Json};
use crate::message::{
    calls_view, default_tc_type, CallView, FunctionCall, Message, MessageView, ToolCall, UsageStats,
};
use crate::pieces::{split_lines, without_cr};
use crate::search::{lines, starts_with, strip_cr, strip_prefix, texts};
use crate::text::{chars_of, copy, same, text_range};

verus! {

/// The prefix of a line that carries data.
pub const DATA_PREFIX: &'static str = "data: ";

/// The data of a line, where it carries any.
pub open spec fn line_data(line: Seq<char>) -> Option<Seq<char>> {
    if starts_with(line, DATA_PREFIX@) {
        Some(line.skip(DATA_PREFIX@.len() as int))
    } else {
        None
    }
}

/// A line as it was read, without its line break.
pub open spec fn chomp(line: Seq<char>) -> Seq<char> {
    if line.len() > 0 && line.last() == '\n' {
        strip_cr(line.drop_last())
    } else {
        line
    }
}

/// A line as it was read, without its line feed and a carriage return before
/// it; `None` at the end of the stream, where nothing was read.
pub fn read_sse_line(raw: &str) -> (r: Option<String>)
    ensures
        match r {
            Some(s) => raw@.len() > 0 && s@ == chomp(raw@),
            None => raw@.len() == 0,
        },
{
    let v = chars_of(raw);
    let n: usize = v.len();
    if n == 0 {
        return None;
    }
    if v[n - 1] == '\n' {
        let t = text_range(&v, 0, n - 1);
        assert(t@ =~= raw@.drop_last());
        Some(without_cr(t.as_str()))
    } else {
        Some(copy(raw))
    }
}

/// A token count as a provider reports it.
pub open spec fn count_of(v: JVal) -> u32 {
    match v.as_uint() {
        Some(n) => if n > u32::MAX {
            u32::MAX
        } else {
            n as u32
        },
        None => 0,
    }
}

/// The usage that an object with two named counts reports.
pub open spec fn usage_in(v: JVal, prompt: Seq<char>, completion: Seq<char>) -> Option<UsageStats> {
    if v is Obj {
        Some(
            UsageStats {
                prompt_tokens: count_of(v.field(prompt)),
                completion_tokens: count_of(v.field(completion)),
            },
        )
    } else {
        None
    }
}

fn read_count(v: &Json, key: &str) -> (r: u32)
    ensures
        r == count_of(v@.field(key@)),
{
    match v.uint_field(key) {
        Some(n) => if n > u32::MAX as u64 {
            u32::MAX
        } else {
            n as u32
        },
        None => 0,
    }
}

/// The usage that a field of `v` reports.
pub fn read_usage(v: &Json, prompt: &str, completion: &str) -> (r: Option<UsageStats>)
    ensures
        r == usage_in(v@.field("usage"@), prompt@, completion@),
{
    match v.get("usage") {
        Some(u) => match u {
            Json::Obj(_) => Some(
                UsageStats {
                    prompt_tokens: read_count(u, prompt),
                    completion_tokens: read_count(u, completion),
                },
            ),
            _ => None,
        },
        None => None,
    }
}

/// A text unless it is empty.
pub open spec fn non_empty(s: Seq<char>) -> Option<Seq<char>> {
    if s.len() == 0 {
        None
    } else {
        Some(s)
    }
}

/// The assistant message of a reply.
pub open spec fn reply_view(
    text: Seq<char>,
    calls: Seq<CallView>,
    usage: Option<UsageStats>,
) -> MessageView {
    MessageView {
        role: "assistant"@,
        content: non_empty(text),
        tool_calls: if calls.len() == 0 {
            None
        } else {
            Some(calls)
        },
        tool_call_id: None,
        name: None,
        usage,
    }
}

/// The assistant message of a reply.
pub fn reply_message(text: String, calls: Vec<ToolCall>, usage: Option<UsageStats>) -> (r: Message)
    ensures
        r@ == reply_view(text@, calls_view(calls@), usage),
{
    let content = if text.as_str().is_empty() {
        None
    } else {
        Some(text)
    };
    let tool_calls = if calls.len() == 0 {
        None
    } else {
        Some(calls)
    };
    Message {
        role: copy("assistant"),
        content,
        tool_calls,
        tool_call_id: None,
        name: None,
        usage,
    }
}

/// A call of which nothing has arrived yet.
pub open spec fn blank_call() -> CallView {
    CallView {
        id: Seq::empty(),
        call_type: "function"@,
        name: Seq::empty(),
        arguments: Seq::empty(),
    }
}

/// The calls with blank ones added up to a length.
pub open spec fn padded(calls: Seq<CallView>, n: nat) -> Seq<CallView> {
    Seq::new(
        if calls.len() >= n {
            calls.len()
        } else {
            n
        },
        |i: int|
            if i < calls.len() {
                calls[i]
            } else {
                blank_call()
            },
    )
}

/// The index that a fragment names; the first where it names none.
pub open spec fn index_of(v: JVal) -> nat {
    match v.field("index"@).as_uint() {
        Some(n) => (n as usize) as nat,
        None => 0,
    }
}

fn read_index(v: &Json) -> (r: usize)
    ensures
        r == index_of(v@),
{
    match v.uint_field("index") {
        Some(n) => {
            #[verifier::truncate]
            let i: usize = n as usize;
            i
        },
        None => 0,
    }
}

/// A text followed by what a field holds, where it holds a string.
pub open spec fn extended(s: Seq<char>, v: JVal) -> Seq<char> {
    match v.as_text() {
        Some(t) => s + t,
        None => s,
    }
}

/// A call after one more fragment of it.
pub open spec fn merged(call: CallView, fragment: JVal) -> CallView {
    let f = fragment.field("function"@);
    CallView {
        id: match fragment.field("id"@).as_text() {
            Some(id) => if id.len() > 0 {
                id
            } else {
                call.id
            },
            None => call.id,
        },
        call_type: call.call_type,
        name: extended(call.name, f.field("name"@)),
        arguments: extended(call.arguments, f.field("arguments"@)),
    }
}

/// The calls after one more fragment.
pub open spec fn with_fragment(calls: Seq<CallView>, fragment: JVal) -> Seq<CallView> {
    let i = index_of(fragment);
    let all = padded(calls, i + 1);
    all.update(i as int, merged(all[i as int], fragment))
}

/// The calls after some fragments.
pub open spec fn with_fragments(calls: Seq<CallView>, fragments: Seq<JVal>) -> Seq<CallView>
    decreases fragments.len(),
{
    if fragments.len() == 0 {
        calls
    } else {
        with_fragment(with_fragments(calls, fragments.drop_last()), fragments.last())
    }
}

/// What an OpenAI-style stream has amounted to so far.
pub struct OpenAiView {
    pub text: Seq<char>,
    pub calls: Seq<CallView>,
    pub usage: Option<UsageStats>,
    pub done: bool,
}

/// The state after one chunk, with the text that the chunk carries.
pub open spec fn openai_chunk(st: OpenAiView, chunk: JVal) -> (OpenAiView, Option<Seq<char>>) {
    let delta = chunk.field("choices"@).item(0).field("delta"@);
    let token = delta.field("content"@).as_text();
    let calls = match delta.field("tool_calls"@) {
        JVal::Arr(fs) => with_fragments(st.calls, fs),
        _ => st.calls,
    };
    let usage = match usage_in(chunk.field("usage"@), "prompt_tokens"@, "completion_tokens"@) {
        Some(u) => Some(u),
        None => st.usage,
    };
    (
        OpenAiView {
            text: match token {
                Some(t) => st.text + t,
                None => st.text,
            },
            calls,
            usage,
            done: st.done,
        },
        token,
    )
}

/// The state after one line, with the text that the line carries.
pub open spec fn openai_line(st: OpenAiView, line: Seq<char>) -> (OpenAiView, Option<Seq<char>>) {
    if st.done {
        (st, None)
    } else {
        match line_data(line) {
            None => (st, None),
            Some(data) => if data == "[DONE]"@ {
                (OpenAiView { done: true, ..st }, None)
            } else {
                match json_parse(data) {
                    Ok(chunk) => openai_chunk(st, chunk),
                    Err(_) => (st, None),
                }
            },
        }
    }
}

/// Parser of an OpenAI-style stream.
pub struct OpenAiStream {
    text: String,
    calls: Vec<ToolCall>,
    usage: Option<UsageStats>,
    done: bool,
}

impl View for OpenAiStream {
    type V = OpenAiView;

    closed spec fn view(&self) -> OpenAiView {
        OpenAiView {
            text: self.text@,
            calls: calls_view(self.calls@),
            usage: self.usage,
            done: self.done,
        }
    }
}

pub open spec fn opt_token(o: Option<String>) -> Option<Seq<char>> {
    crate::message::opt_text(o)
}

impl OpenAiStream {
    pub fn new() -> (r: Self)
        ensures
            r@ == (OpenAiView { text: Seq::empty(), calls: Seq::empty(), usage: None, done: false }),
    {
        let r = OpenAiStream { text: String::new(), calls: Vec::new(), usage: None, done: false };
        assert(r@.calls =~= Seq::empty());
        r
    }

    /// Whether the stream said that it is over.
    pub fn is_done(&self) -> (r: bool)
        ensures
            r == self@.done,
    {
        self.done
    }

    fn take_fragment(&mut self, fragment: &Json)
        ensures
            final(self)@ == (OpenAiView {
                calls: with_fragment(old(self)@.calls, fragment@),
                ..old(self)@
            }),
    {
        let i: usize = read_index(fragment);
        let ghost start = self@.calls;
        assert(padded(start, self.calls@.len()) =~= start);
        while self.calls.len() <= i
            invariant
                start == old(self)@.calls,
                start.len() <= self.calls@.len(),
                self.calls@.len() <= start.len() || self.calls@.len() <= i + 1,
                self@ == (OpenAiView {
                    calls: padded(start, self.calls@.len()),
                    ..old(self)@
                }),
            decreases i + 1 - self.calls@.len(),
        {
            let ghost before = self.calls@;
            self.calls.push(
                ToolCall {
                    id: String::new(),
                    call_type: default_tc_type(),
                    function: FunctionCall { name: String::new(), arguments: String::new() },
                },
            );
            proof {
                assert(self.calls@.last()@ == blank_call());
                assert(calls_view(self.calls@) =~= calls_view(before).push(blank_call()));
                assert(self@.calls =~= padded(start, self.calls@.len()));
            }
        }
        let ghost all = self@.calls;
        assert(all =~= padded(start, (i + 1) as nat));
        let id = match fragment.text_field("id") {
            Some(s) => if s.is_empty() {
                copy(self.calls[i].id.as_str())
            } else {
                copy(s)
            },
            None => copy(self.calls[i].id.as_str()),
        };
        let mut name = copy(self.calls[i].function.name.as_str());
        let mut arguments = copy(self.calls[i].function.arguments.as_str());
        if let Some(f) = fragment.get("function") {
            if let Some(s) = f.text_field("name") {
                name.append(s);
            }
            if let Some(s) = f.text_field("arguments") {
                arguments.append(s);
            }
        }
        let call_type = copy(self.calls[i].call_type.as_str());
        let call = ToolCall { id, call_type, function: FunctionCall { name, arguments } };
        let ghost before = self.calls@;
        assert(all[i as int] == before[i as int]@);
        assert(call@ == merged(all[i as int], fragment@));
        self.calls.set(i, call);
        assert(self@.calls =~= all.update(i as int, call@));
    }

    /// Takes one chunk and returns the text that it carries.
    pub fn take_chunk(&mut self, chunk: &Json) -> (r: Option<String>)
        ensures
            (final(self)@, opt_token(r)) == openai_chunk(old(self)@, chunk@),
    {
        let usage = read_usage(chunk, "prompt_tokens", "completion_tokens");
        if usage.is_some() {
            self.usage = usage;
        }
        let choices = match chunk.array_field("choices") {
            Some(v) => v,
            None => {
                return None;
            },
        };
        if choices.len() == 0 {
            return None;
        }
        assert(items_view(choices@)[0] == choices@[0]@);
        let delta = match choices[0].get("delta") {
            Some(d) => d,
            None => {
                return None;
            },
        };
        let token = match delta.text_field("content") {
            Some(s) => {
                self.text.append(s);
                Some(copy(s))
            },
            None => None,
        };
        if let Some(fs) = delta.array_field("tool_calls") {
            let n: usize = fs.len();
            let mut i: usize = 0;
            let ghost start = self@;
            let ghost all = items_view(fs@);
            assert(all.take(0) =~= Seq::empty());
            while i < n
                invariant
                    i <= n,
                    n == fs@.len(),
                    all == items_view(fs@),
                    self@ == (OpenAiView {
                        calls: with_fragments(start.calls, all.take(i as int)),
                        ..start
                    }),
                decreases n - i,
            {
                proof {
                    assert(all.take(i as int + 1).drop_last() =~= all.take(i as int));
                    assert(all[i as int] == fs@[i as int]@);
                }
                self.take_fragment(&fs[i]);
                i += 1;
            }
            assert(all.take(n as int) =~= all);
        }
        token
    }

    /// Takes one line and returns the text that it carries.
    pub fn take_line(&mut self, line: &str) -> (r: Option<String>)
        ensures
            (final(self)@, opt_token(r)) == openai_line(old(self)@, line@),
    {
        if self.done {
            return None;
        }
        let data = match strip_prefix(line, DATA_PREFIX) {
            Some(d) => d,
            None => {
                return None;
            },
        };
        if same(data.as_str(), "[DONE]") {
            self.done = true;
            return None;
        }
        match parse(data.as_str()) {
            Ok(chunk) => self.take_chunk(&chunk),
            Err(_) => None,
        }
    }

    /// The message that the stream amounts to.
    pub fn finish(self) -> (r: Message)
        ensures
            r@ == reply_view(self@.text, self@.calls, self@.usage),
    {
        reply_message(self.text, self.calls, self.usage)
    }
}

/// A content block of an Anthropic stream: its kind, identifier, name, and the
/// JSON text of its input so far.
pub struct Block {
    pub kind: String,
    pub id: String,
    pub name: String,
    pub input: String,
}

/// The content of a [`Block`].
pub struct BlockView {
    pub kind: Seq<char>,
    pub id: Seq<char>,
    pub name: Seq<char>,
    pub input: Seq<char>,
}

impl View for Block {
    type V = BlockView;

    open spec fn view(&self) -> BlockView {
        BlockView { kind: self.kind@, id: self.id@, name: self.name@, input: self.input@ }
    }
}

pub open spec fn blocks_view(v: Seq<Block>) -> Seq<BlockView> {
    v.map_values(|b: Block| b@)
}

pub open spec fn blank_block() -> BlockView {
    BlockView { kind: Seq::empty(), id: Seq::empty(), name: Seq::empty(), input: Seq::empty() }
}

/// The blocks with blank ones added up to a length.
pub open spec fn padded_blocks(blocks: Seq<BlockView>, n: nat) -> Seq<BlockView> {
    Seq::new(
        if blocks.len() >= n {
            blocks.len()
        } else {
            n
        },
        |i: int|
            if i < blocks.len() {
                blocks[i]
            } else {
                blank_block()
            },
    )
}

/// What an Anthropic stream has amounted to so far.
pub struct AnthropicView {
    pub text: Seq<char>,
    pub blocks: Seq<BlockView>,
    pub usage: Option<UsageStats>,
    pub done: bool,
}

/// The text of a string, or the empty text.
pub open spec fn text_or_empty(v: JVal) -> Seq<char> {
    match v.as_text() {
        Some(s) => s,
        None => Seq::empty(),
    }
}

/// The usage after an event that reports some of it.
pub open spec fn usage_after(before: Option<UsageStats>, report: JVal) -> Option<UsageStats> {
    if report is Obj {
        let u = match before {
            Some(u) => u,
            None => UsageStats { prompt_tokens: 0, completion_tokens: 0 },
        };
        Some(
            UsageStats {
                prompt_tokens: if report.field("input_tokens"@).as_uint() is Some {
                    count_of(report.field("input_tokens"@))
                } else {
                    u.prompt_tokens
                },
                completion_tokens: if report.field("output_tokens"@).as_uint() is Some {
                    count_of(report.field("output_tokens"@))
                } else {
                    u.completion_tokens
                },
            },
        )
    } else {
        before
    }
}

/// The state after one event, with the text that the event carries.
pub open spec fn anthropic_event(st: AnthropicView, ev: JVal) -> (
    AnthropicView,
    Option<Seq<char>>,
) {
    let kind = text_or_empty(ev.field("type"@));
    let i = index_of(ev);
    if kind == "content_block_start"@ {
        let b = ev.field("content_block"@);
        let all = padded_blocks(st.blocks, i + 1);
        (
            AnthropicView {
                blocks: all.update(
                    i as int,
                    BlockView {
                        kind: text_or_empty(b.field("type"@)),
                        id: text_or_empty(b.field("id"@)),
                        name: text_or_empty(b.field("name"@)),
                        input: Seq::empty(),
                    },
                ),
                ..st
            },
            None,
        )
    } else if kind == "content_block_delta"@ {
        let delta = ev.field("delta"@);
        let dkind = text_or_empty(delta.field("type"@));
        if dkind == "text_delta"@ {
            match delta.field("text"@).as_text() {
                Some(t) => (AnthropicView { text: st.text + t, ..st }, Some(t)),
                None => (st, None),
            }
        } else if dkind == "input_json_delta"@ {
            match delta.field("partial_json"@).as_text() {
                Some(p) => if i < st.blocks.len() {
                    let b = st.blocks[i as int];
                    (
                        AnthropicView {
                            blocks: st.blocks.update(
                                i as int,
                                BlockView { input: b.input + p, ..b },
                            ),
                            ..st
                        },
                        None,
                    )
                } else {
                    (st, None)
                },
                None => (st, None),
            }
        } else {
            (st, None)
        }
    } else if kind == "message_start"@ {
        (
            AnthropicView {
                usage: usage_after(st.usage, ev.field("message"@).field("usage"@)),
                ..st
            },
            None,
        )
    } else if kind == "message_delta"@ {
        (AnthropicView { usage: usage_after(st.usage, ev.field("usage"@)), ..st }, None)
    } else if kind == "message_stop"@ {
        (AnthropicView { done: true, ..st }, None)
    } else {
        (st, None)
    }
}

/// The state after one line, with the text that the line carries.
pub open spec fn anthropic_line(st: AnthropicView, line: Seq<char>) -> (
    AnthropicView,
    Option<Seq<char>>,
) {
    if st.done {
        (st, None)
    } else {
        match line_data(line) {
            None => (st, None),
            Some(data) => match json_parse(data) {
                Ok(ev) => anthropic_event(st, ev),
                Err(_) => (st, None),
            },
        }
    }
}

/// The tool calls among the blocks.
pub open spec fn block_calls(blocks: Seq<BlockView>) -> Seq<CallView>
    decreases blocks.len(),
{
    if blocks.len() == 0 {
        Seq::empty()
    } else {
        let before = block_calls(blocks.drop_last());
        let b = blocks.last();
        if b.kind == "tool_use"@ {
            before.push(
                CallView {
                    id: b.id,
                    call_type: "function"@,
                    name: b.name,
                    arguments: if b.input.len() == 0 {
                        "{}"@
                    } else {
                        b.input
                    },
                },
            )
        } else {
            before
        }
    }
}

/// Parser of an Anthropic stream.
pub struct AnthropicStream {
    text: String,
    blocks: Vec<Block>,
    usage: Option<UsageStats>,
    done: bool,
}

impl View for AnthropicStream {
    type V = AnthropicView;

    closed spec fn view(&self) -> AnthropicView {
        AnthropicView {
            text: self.text@,
            blocks: blocks_view(self.blocks@),
            usage: self.usage,
            done: self.done,
        }
    }
}

fn text_at(v: Option<&Json>, key: &str) -> (r: String)
    ensures
        r@ == text_or_empty(
            match v {
                Some(j) => j@.field(key@),
                None => JVal::Null,
            },
        ),
{
    match v {
        Some(j) => match j.text_field(key) {
            Some(s) => copy(s),
            None => String::new(),
        },
        None => String::new(),
    }
}

fn read_usage_report(before: Option<UsageStats>, report: &Json) -> (r: Option<UsageStats>)
    ensures
        r == usage_after(before, report@),
{
    match report {
        Json::Obj(_) => {
            let u = match before {
                Some(u) => u,
                None => UsageStats { prompt_tokens: 0, completion_tokens: 0 },
            };
            let prompt_tokens: u32 = if report.uint_field("input_tokens").is_some() {
                read_count(report, "input_tokens")
            } else {
                u.prompt_tokens
            };
            let completion_tokens: u32 = if report.uint_field("output_tokens").is_some() {
                read_count(report, "output_tokens")
            } else {
                u.completion_tokens
            };
            Some(UsageStats { prompt_tokens, completion_tokens })
        },
        _ => before,
    }
}

impl AnthropicStream {
    pub fn new() -> (r: Self)
        ensures
            r@ == (AnthropicView {
                text: Seq::empty(),
                blocks: Seq::empty(),
                usage: None,
                done: false,
            }),
    {
        let r = AnthropicStream {
            text: String::new(),
            blocks: Vec::new(),
            usage: None,
            done: false,
        };
        assert(r@.blocks =~= Seq::empty());
        r
    }

    /// Whether the stream said that it is over.
    pub fn is_done(&self) -> (r: bool)
        ensures
            r == self@.done,
    {
        self.done
    }

    fn start_block(&mut self, i: usize, block: Block)
        ensures
            final(self)@ == (AnthropicView {
                blocks: padded_blocks(old(self)@.blocks, (i + 1) as nat).update(i as int, block@),
                ..old(self)@
            }),
    {
        let ghost start = self@.blocks;
        assert(padded_blocks(start, self.blocks@.len()) =~= start);
        while self.blocks.len() <= i
            invariant
                start == old(self)@.blocks,
                start.len() <= self.blocks@.len(),
                self.blocks@.len() <= start.len() || self.blocks@.len() <= i + 1,
                self@ == (AnthropicView {
                    blocks: padded_blocks(start, self.blocks@.len()),
                    ..old(self)@
                }),
            decreases i + 1 - self.blocks@.len(),
        {
            let ghost before = self.blocks@;
            self.blocks.push(
                Block {
                    kind: String::new(),
                    id: String::new(),
                    name: String::new(),
                    input: String::new(),
                },
            );
            proof {
                assert(self.blocks@.last()@ == blank_block());
                assert(blocks_view(self.blocks@) =~= blocks_view(before).push(blank_block()));
                assert(self@.blocks =~= padded_blocks(start, self.blocks@.len()));
            }
        }
        let ghost all = self@.blocks;
        assert(all =~= padded_blocks(start, (i + 1) as nat));
        self.blocks.set(i, block);
        assert(self@.blocks =~= all.update(i as int, block@));
    }

    fn extend_block(&mut self, i: usize, part: &str)
        ensures
            final(self)@ == (AnthropicView {
                blocks: if i < old(self)@.blocks.len() {
                    let b = old(self)@.blocks[i as int];
                    old(self)@.blocks.update(i as int, BlockView { input: b.input + part@, ..b })
                } else {
                    old(self)@.blocks
                },
                ..old(self)@
            }),
    {
        let ghost all = self@.blocks;
        if i < self.blocks.len() {
            assert(all[i as int] == self.blocks@[i as int]@);
            let mut input = copy(self.blocks[i].input.as_str());
            input.append(part);
            let block = Block {
                kind: copy(self.blocks[i].kind.as_str()),
                id: copy(self.blocks[i].id.as_str()),
                name: copy(self.blocks[i].name.as_str()),
                input,
            };
            self.blocks.set(i, block);
            assert(self@.blocks =~= all.update(i as int, block@));
        }
    }

    /// Takes one event and returns the text that it carries.
    pub fn take_event(&mut self, ev: &Json) -> (r: Option<String>)
        ensures
            (final(self)@, opt_token(r)) == anthropic_event(old(self)@, ev@),
    {
        let kind = text_at(Some(ev), "type");
        let i: usize = read_index(ev);
        if same(kind.as_str(), "content_block_start") {
            let b = ev.get("content_block");
            let block = Block {
                kind: text_at(b, "type"),
                id: text_at(b, "id"),
                name: text_at(b, "name"),
                input: String::new(),
            };
            self.start_block(i, block);
            None
        } else if same(kind.as_str(), "content_block_delta") {
            let delta = ev.get("delta");
            let dkind = text_at(delta, "type");
            if same(dkind.as_str(), "text_delta") {
                if let Some(d) = delta {
                    if let Some(t) = d.text_field("text") {
                        self.text.append(t);
                        return Some(copy(t));
                    }
                }
                None
            } else if same(dkind.as_str(), "input_json_delta") {
                if let Some(d) = delta {
                    if let Some(p) = d.text_field("partial_json") {
                        self.extend_block(i, p);
                    }
                }
                None
            } else {
                None
            }
        } else if same(kind.as_str(), "message_start") {
            if let Some(m) = ev.get("message") {
                if let Some(u) = m.get("usage") {
                    self.usage = read_usage_report(self.usage, u);
                }
            }
            None
        } else if same(kind.as_str(), "message_delta") {
            if let Some(u) = ev.get("usage") {
                self.usage = read_usage_report(self.usage, u);
            }
            None
        } else if same(kind.as_str(), "message_stop") {
            self.done = true;
            None
        } else {
            None
        }
    }

    /// Takes one line and returns the text that it carries.
    pub fn take_line(&mut self, line: &str) -> (r: Option<String>)
        ensures
            (final(self)@, opt_token(r)) == anthropic_line(old(self)@, line@),
    {
        if self.done {
            return None;
        }
        let data = match strip_prefix(line, DATA_PREFIX) {
            Some(d) => d,
            None => {
                return None;
            },
        };
        match parse(data.as_str()) {
            Ok(ev) => self.take_event(&ev),
            Err(_) => None,
        }
    }

    /// The message that the stream amounts to.
    pub fn finish(self) -> (r: Message)
        ensures
            r@ == reply_view(self@.text, block_calls(self@.blocks), self@.usage),
    {
        let n: usize = self.blocks.len();
        let mut calls: Vec<ToolCall> = Vec::new();
        let mut i: usize = 0;
        let ghost all = self@.blocks;
        assert(all.take(0) =~= Seq::empty());
        assert(calls_view(calls@) =~= Seq::empty());
        while i < n
            invariant
                i <= n,
                n == self.blocks@.len(),
                all == blocks_view(self.blocks@),
                calls_view(calls@) == block_calls(all.take(i as int)),
            decreases n - i,
        {
            proof {
                assert(all.take(i as int + 1).drop_last() =~= all.take(i as int));
                assert(all[i as int] == self.blocks@[i as int]@);
            }
            let b = &self.blocks[i];
            if same(b.kind.as_str(), "tool_use") {
                let arguments = if b.input.as_str().is_empty() {
                    copy("{}")
                } else {
                    copy(b.input.as_str())
                };
                let call = ToolCall {
                    id: copy(b.id.as_str()),
                    call_type: default_tc_type(),
                    function: FunctionCall { name: copy(b.name.as_str()), arguments },
                };
                let ghost before = calls@;
                calls.push(call);
                assert(calls_view(calls@) =~= calls_view(before).push(call@));
            }
            i += 1;
        }
        assert(all.take(n as int) =~= all);
        reply_message(self.text, calls, self.usage)
    }
}

/// The text that a sequence of lines carries, and the state after them.
pub open spec fn openai_lines(st: OpenAiView, lines: Seq<Seq<char>>) -> (OpenAiView, Seq<char>)
    decreases lines.len(),
{
    if lines.len() == 0 {
        (st, Seq::empty())
    } else {
        let (mid, out) = openai_lines(st, lines.drop_last());
        let (end, token) = openai_line(mid, lines.last());
        (
            end,
            match token {
                Some(t) => out + t,
                None => out,
            },
        )
    }
}

/// What the sink receives is the content of the final message.
pub proof fn openai_tokens_add_up_to_the_text(st: OpenAiView, lines: Seq<Seq<char>>)
    ensures
        ({
            let (end, out) = openai_lines(st, lines);
            end.text == st.text + out
        }),
    decreases lines.len(),
{
    if lines.len() == 0 {
        assert(st.text + Seq::<char>::empty() =~= st.text);
    } else {
        openai_tokens_add_up_to_the_text(st, lines.drop_last());
        let (mid, out) = openai_lines(st, lines.drop_last());
        let (end, token) = openai_line(mid, lines.last());
        if let Some(t) = token {
            assert(end.text == mid.text + t);
            assert(st.text + out + t =~= st.text + (out + t));
        } else {
            assert(end.text == mid.text);
        }
    }
}

/// The text that a sequence of lines carries, and the state after them.
pub open spec fn anthropic_lines(st: AnthropicView, lines: Seq<Seq<char>>) -> (
    AnthropicView,
    Seq<char>,
)
    decreases lines.len(),
{
    if lines.len() == 0 {
        (st, Seq::empty())
    } else {
        let (mid, out) = anthropic_lines(st, lines.drop_last());
        let (end, token) = anthropic_line(mid, lines.last());
        (
            end,
            match token {
                Some(t) => out + t,
                None => out,
            },
        )
    }
}

/// What the sink receives is the content of the final message.
pub proof fn anthropic_tokens_add_up_to_the_text(st: AnthropicView, lines: Seq<Seq<char>>)
    ensures
        ({
            let (end, out) = anthropic_lines(st, lines);
            end.text == st.text + out
        }),
    decreases lines.len(),
{
    if lines.len() == 0 {
        assert(st.text + Seq::<char>::empty() =~= st.text);
    } else {
        anthropic_tokens_add_up_to_the_text(st, lines.drop_last());
        let (mid, out) = anthropic_lines(st, lines.drop_last());
        let (end, token) = anthropic_line(mid, lines.last());
        if let Some(t) = token {
            assert(end.text == mid.text + t);
            assert(st.text + out + t =~= st.text + (out + t));
        } else {
            assert(end.text == mid.text);
        }
    }
}

/// Reads an OpenAI-style stream that has arrived whole: the text that its lines carry,
/// and the message.
pub fn parse_openai_stream(data: &str) -> (r: (String, Message))
    ensures
        ({
            let (end, out) = openai_lines(
                OpenAiView { text: Seq::empty(), calls: Seq::empty(), usage: None, done: false },
                lines(data@),
            );
            r.0@ == out && r.1@ == reply_view(end.text, end.calls, end.usage)
        }),
{
    let parts = split_lines(data);
    let mut st = OpenAiStream::new();
    let mut out = String::new();
    let n: usize = parts.len();
    let mut i: usize = 0;
    let ghost all = lines(data@);
    let ghost first = st@;
    assert(all.take(0) =~= Seq::empty());
    while i < n
        invariant
            i <= n,
            n == parts@.len(),
            all == texts(parts@),
            (st@, out@) == openai_lines(first, all.take(i as int)),
        decreases n - i,
    {
        proof {
            assert(all.take(i as int + 1).drop_last() =~= all.take(i as int));
            assert(all[i as int] == parts@[i as int]@);
        }
        if let Some(t) = st.take_line(parts[i].as_str()) {
            out.append(t.as_str());
        }
        i += 1;
    }
    assert(all.take(n as int) =~= all);
    (out, st.finish())
}

/// Reads an Anthropic stream that has arrived whole: the text that its lines carry,
/// and the message.
pub fn parse_anthropic_stream(data: &str) -> (r: (String, Message))
    ensures
        ({
            let (end, out) = anthropic_lines(
                AnthropicView { text: Seq::empty(), blocks: Seq::empty(), usage: None, done: false },
                lines(data@),
            );
            r.0@ == out && r.1@ == reply_view(end.text, block_calls(end.blocks), end.usage)
        }),
{
    let parts = split_lines(data);
    let mut st = AnthropicStream::new();
    let mut out = String::new();
    let n: usize = parts.len();
    let mut i: usize = 0;
    let ghost all = lines(data@);
    let ghost first = st@;
    assert(all.take(0) =~= Seq::empty());
    while i < n
        invariant
            i <= n,
            n == parts@.len(),
            all == texts(parts@),
            (st@, out@) == anthropic_lines(first, all.take(i as int)),
        decreases n - i,
    {
        proof {
            assert(all.take(i as int + 1).drop_last() =~= all.take(i as int));
            assert(all[i as int] == parts@[i as int]@);
        }
        if let Some(t) = st.take_line(parts[i].as_str()) {
            out.append(t.as_str());
        }
        i += 1;
    }
    assert(all.take(n as int) =~= all);
    (out, st.finish())
}

/// A line is given without its line feed and without a carriage return before that.
pub proof fn a_line_is_read_without_its_break(s: Seq<char>)
    requires
        s.len() == 0 || s.last() != '\r' && s.last() != '\n',
    ensures
        chomp(s.push('\n')) == s,
        chomp(s.push('\r').push('\n')) == s,
        chomp(s) == s,
{
    assert(s.push('\n').drop_last() =~= s);
    assert(s.push('\r').push('\n').drop_last() =~= s.push('\r'));
    assert(s.push('\r').drop_last() =~= s);
}

} // verus!
