//! Conversion between messages and the wire formats of the two provider
//! families.
use vstd::prelude::*;
use vstd::string::*;
use crate::json::{
    items_view, json_parse, json_text, lemma_arr_view, lemma_get_with, parse, render, JVal, Json,
};
use crate::message::{
    calls_view, default_tc_type, messages_view, CallView, FunctionCall, Message, MessageView,
    ToolCall,
};
use crate::net::stream::{read_usage, reply_message, reply_view, text_or_empty, usage_in};
use crate::text::{cat2, copy, same};

verus! {

/// A tool call in the OpenAI format.
pub open spec fn call_json(c: CallView) -> JVal {
    JVal::object().with("id"@, JVal::Str(c.id)).with("type"@, JVal::Str(c.call_type)).with(
        "function"@,
        JVal::object().with("name"@, JVal::Str(c.name)).with("arguments"@, JVal::Str(c.arguments)),
    )
}

/// The object with a string field, where there is a string.
pub open spec fn with_opt(v: JVal, key: Seq<char>, s: Option<Seq<char>>) -> JVal {
    match s {
        Some(t) => v.with(key, JVal::Str(t)),
        None => v,
    }
}

/// A message in the OpenAI format.
pub open spec fn message_json(m: MessageView) -> JVal {
    let a = with_opt(JVal::object().with("role"@, JVal::Str(m.role)), "content"@, m.content);
    let b = match m.tool_calls {
        Some(cs) => a.with(
            "tool_calls"@,
            JVal::Arr(Seq::new(cs.len(), |i: int| call_json(cs[i]))),
        ),
        None => a,
    };
    with_opt(with_opt(b, "tool_call_id"@, m.tool_call_id), "name"@, m.name)
}

/// A message as an OpenAI-compatible server takes it: the content of assistant
/// and tool messages is never left out.
pub open spec fn openai_message(m: MessageView) -> JVal {
    if (m.role == "assistant"@ || m.role == "tool"@) && m.content is None {
        message_json(m).with("content"@, JVal::Str(Seq::empty()))
    } else {
        message_json(m)
    }
}

/// A tool call in the OpenAI format.
pub fn call_to_json(c: &ToolCall) -> (r: Json)
    ensures
        r@ == call_json(c@),
{
    let function = Json::object().with_text("name", c.function.name.as_str()).with_text(
        "arguments",
        c.function.arguments.as_str(),
    );
    Json::object().with_text("id", c.id.as_str()).with_text("type", c.call_type.as_str()).with(
        "function",
        function,
    )
}

fn put_opt(v: Json, key: &str, s: &Option<String>) -> (r: Json)
    ensures
        r@ == with_opt(v@, key@, crate::message::opt_text(*s)),
{
    match s {
        Some(t) => v.with_text(key, t.as_str()),
        None => v,
    }
}

/// A message in the OpenAI format.
pub fn message_to_json(m: &Message) -> (r: Json)
    ensures
        r@ == message_json(m@),
{
    let a = put_opt(
        Json::object().with_text("role", m.role.as_str()),
        "content",
        &m.content,
    );
    let b = match &m.tool_calls {
        Some(cs) => {
            let mut out: Vec<Json> = Vec::new();
            let n: usize = cs.len();
            let mut i: usize = 0;
            while i < n
                invariant
                    i <= n,
                    n == cs@.len(),
                    out@.len() == i,
                    forall|k: int| 0 <= k < i ==> (#[trigger] out@[k])@ == call_json(cs@[k]@),
                decreases n - i,
            {
                out.push(call_to_json(&cs[i]));
                i += 1;
            }
            proof {
                lemma_arr_view(out);
                let v = calls_view(cs@);
                assert(items_view(out@) =~= Seq::new(v.len(), |i: int| call_json(v[i])));
            }
            a.with("tool_calls", Json::Arr(out))
        },
        None => a,
    };
    let c = put_opt(b, "tool_call_id", &m.tool_call_id);
    put_opt(c, "name", &m.name)
}

/// Messages as an OpenAI-compatible server takes them.
pub fn to_openai_messages(msgs: &Vec<Message>) -> (r: Vec<Json>)
    ensures
        items_view(r@) == Seq::new(msgs@.len(), |i: int| openai_message(msgs@[i]@)),
{
    let mut out: Vec<Json> = Vec::new();
    let n: usize = msgs.len();
    let mut i: usize = 0;
    while i < n
        invariant
            i <= n,
            n == msgs@.len(),
            out@.len() == i,
            forall|k: int| 0 <= k < i ==> (#[trigger] out@[k])@ == openai_message(msgs@[k]@),
        decreases n - i,
    {
        let m = &msgs[i];
        let obj = message_to_json(m);
        let needs: bool = same(m.role.as_str(), "assistant") || same(m.role.as_str(), "tool");
        if needs && m.content.is_none() {
            out.push(obj.with_text("content", ""));
            proof {
                reveal_strlit("");
                assert(""@ =~= Seq::<char>::empty());
            }
        } else {
            out.push(obj);
        }
        i += 1;
    }
    assert(items_view(out@) =~= Seq::new(msgs@.len(), |i: int| openai_message(msgs@[i]@)));
    out
}

/// A conversation turn in the Anthropic format.
pub struct Turn {
    /// Whether the turn is the user's; the assistant's otherwise.
    pub user: bool,
    pub content: Content,
}

/// The content of a turn: plain text or blocks.
pub enum Content {
    Text(String),
    Blocks(Vec<Json>),
}

/// The content of a [`Turn`].
pub struct TurnView {
    pub user: bool,
    pub content: ContentView,
}

/// The content of a [`Content`].
pub enum ContentView {
    Text(Seq<char>),
    Blocks(Seq<JVal>),
}

impl View for Content {
    type V = ContentView;

    open spec fn view(&self) -> ContentView {
        match self {
            Content::Text(s) => ContentView::Text(s@),
            Content::Blocks(v) => ContentView::Blocks(items_view(v@)),
        }
    }
}

impl View for Turn {
    type V = TurnView;

    open spec fn view(&self) -> TurnView {
        TurnView { user: self.user, content: self.content@ }
    }
}

pub open spec fn turns_view(v: Seq<Turn>) -> Seq<TurnView> {
    v.map_values(|t: Turn| t@)
}

/// A text block.
pub open spec fn text_block(s: Seq<char>) -> JVal {
    JVal::object().with("type"@, JVal::Str("text"@)).with("text"@, JVal::Str(s))
}

/// The text, or the empty text.
pub open spec fn or_empty(s: Option<Seq<char>>) -> Seq<char> {
    match s {
        Some(t) => t,
        None => Seq::empty(),
    }
}

/// The arguments of a call as a document; an empty object where the text is no JSON.
pub open spec fn input_of(arguments: Seq<char>) -> JVal {
    match json_parse(arguments) {
        Ok(v) => v,
        Err(_) => JVal::object(),
    }
}

/// A block that asks for a tool.
pub open spec fn use_block(c: CallView) -> JVal {
    JVal::object().with("type"@, JVal::Str("tool_use"@)).with("id"@, JVal::Str(c.id)).with(
        "name"@,
        JVal::Str(c.name),
    ).with("input"@, input_of(c.arguments))
}

/// A block that answers a tool call.
pub open spec fn result_block(id: Seq<char>, content: Seq<char>) -> JVal {
    JVal::object().with("type"@, JVal::Str("tool_result"@)).with("tool_use_id"@, JVal::Str(id)).with(
        "content"@,
        JVal::Str(content),
    )
}

/// The blocks of an assistant message.
pub open spec fn assistant_blocks(m: MessageView) -> Seq<JVal> {
    let text = match m.content {
        Some(c) => if c.len() > 0 {
            seq![text_block(c)]
        } else {
            Seq::empty()
        },
        None => Seq::empty(),
    };
    match m.tool_calls {
        Some(cs) => text + Seq::new(cs.len(), |i: int| use_block(cs[i])),
        None => text,
    }
}

/// The blocks of a turn to which a tool result is added.
pub open spec fn as_blocks(c: ContentView) -> Seq<JVal> {
    match c {
        ContentView::Text(s) => if s.len() > 0 {
            seq![text_block(s)]
        } else {
            Seq::empty()
        },
        ContentView::Blocks(v) => v,
    }
}

/// The turns after one more message, with the system text: system messages are
/// collected, tool results go into the user turn before them.
pub open spec fn after_message(system: Seq<char>, turns: Seq<TurnView>, m: MessageView) -> (
    Seq<char>,
    Seq<TurnView>,
) {
    if m.role == "system"@ {
        (
            (if system.len() > 0 {
                system.push('\n')
            } else {
                system
            }) + or_empty(m.content),
            turns,
        )
    } else if m.role == "user"@ {
        (
            system,
            turns.push(
                TurnView { user: true, content: ContentView::Text(or_empty(m.content)) },
            ),
        )
    } else if m.role == "assistant"@ {
        (
            system,
            turns.push(
                TurnView { user: false, content: ContentView::Blocks(assistant_blocks(m)) },
            ),
        )
    } else if m.role == "tool"@ {
        let block = result_block(or_empty(m.tool_call_id), or_empty(m.content));
        if turns.len() > 0 && turns.last().user {
            (
                system,
                turns.drop_last().push(
                    TurnView {
                        user: true,
                        content: ContentView::Blocks(as_blocks(turns.last().content).push(block)),
                    },
                ),
            )
        } else {
            (
                system,
                turns.push(TurnView { user: true, content: ContentView::Blocks(seq![block]) }),
            )
        }
    } else {
        (system, turns)
    }
}

/// The system text and the turns of a conversation.
pub open spec fn anthropic_turns(msgs: Seq<MessageView>) -> (Seq<char>, Seq<TurnView>)
    decreases msgs.len(),
{
    if msgs.len() == 0 {
        (Seq::empty(), Seq::empty())
    } else {
        let (system, turns) = anthropic_turns(msgs.drop_last());
        after_message(system, turns, msgs.last())
    }
}

/// A turn as a document.
pub open spec fn turn_json(t: TurnView) -> JVal {
    JVal::object().with(
        "role"@,
        JVal::Str(
            if t.user {
                "user"@
            } else {
                "assistant"@
            },
        ),
    ).with(
        "content"@,
        match t.content {
            ContentView::Text(s) => JVal::Str(s),
            ContentView::Blocks(v) => JVal::Arr(v),
        },
    )
}

fn text_to_block(s: &str) -> (r: Json)
    ensures
        r@ == text_block(s@),
{
    Json::object().with_text("type", "text").with_text("text", s)
}

fn opt_or_empty(o: &Option<String>) -> (r: String)
    ensures
        r@ == or_empty(crate::message::opt_text(*o)),
{
    match o {
        Some(s) => copy(s.as_str()),
        None => String::new(),
    }
}

/// The block that asks for a tool.
pub fn call_to_block(c: &ToolCall) -> (r: Json)
    ensures
        r@ == use_block(c@),
{
    let input = match parse(c.function.arguments.as_str()) {
        Ok(v) => v,
        Err(_) => Json::object(),
    };
    Json::object().with_text("type", "tool_use").with_text("id", c.id.as_str()).with_text(
        "name",
        c.function.name.as_str(),
    ).with("input", input)
}

fn blocks_of(m: &Message) -> (r: Vec<Json>)
    ensures
        items_view(r@) == assistant_blocks(m@),
{
    let mut out: Vec<Json> = Vec::new();
    if let Some(c) = &m.content {
        if !c.as_str().is_empty() {
            out.push(text_to_block(c.as_str()));
        }
    }
    let ghost text = match m@.content {
        Some(c) => if c.len() > 0 {
            seq![text_block(c)]
        } else {
            Seq::empty()
        },
        None => Seq::empty(),
    };
    assert(items_view(out@) =~= text);
    if let Some(cs) = &m.tool_calls {
        let n: usize = cs.len();
        let mut i: usize = 0;
        let ghost v = calls_view(cs@);
        let ghost all = Seq::new(v.len(), |i: int| use_block(v[i]));
        assert(text + all.take(0) =~= text);
        while i < n
            invariant
                i <= n,
                n == cs@.len(),
                v == calls_view(cs@),
                all == Seq::new(v.len(), |i: int| use_block(v[i])),
                items_view(out@) == text + all.take(i as int),
                out@.len() == text.len() + i,
            decreases n - i,
        {
            let b = call_to_block(&cs[i]);
            assert(v[i as int] == cs@[i as int]@);
            let ghost before = out@;
            out.push(b);
            proof {
                assert(items_view(out@) =~= items_view(before).push(b@));
                assert(all.take(i as int + 1) =~= all.take(i as int).push(b@));
                assert(items_view(out@) =~= text + all.take(i as int + 1));
            }
            i += 1;
        }
        assert(all.take(n as int) =~= all);
    }
    out
}

fn push_turn(turns: &mut Vec<Turn>, t: Turn)
    ensures
        turns_view(final(turns)@) == turns_view(old(turns)@).push(t@),
{
    turns.push(t);
    assert(turns_view(turns@) =~= turns_view(old(turns)@).push(t@));
}

fn add_result(turns: &mut Vec<Turn>, block: Json)
    ensures
        turns_view(final(turns)@) == ({
            let ts = turns_view(old(turns)@);
            if ts.len() > 0 && ts.last().user {
                ts.drop_last().push(
                    TurnView {
                        user: true,
                        content: ContentView::Blocks(as_blocks(ts.last().content).push(block@)),
                    },
                )
            } else {
                ts.push(TurnView { user: true, content: ContentView::Blocks(seq![block@]) })
            }
        }),
{
    let ghost ts = turns_view(turns@);
    let n: usize = turns.len();
    if n > 0 && turns[n - 1].user {
        assert(ts.last() == turns@.last()@);
        match turns.pop() {
            Some(last) => {
                let mut blocks: Vec<Json> = match last.content {
                    Content::Blocks(v) => v,
                    Content::Text(s) => {
                        let mut v: Vec<Json> = Vec::new();
                        if !s.as_str().is_empty() {
                            v.push(text_to_block(s.as_str()));
                        }
                        assert(items_view(v@) =~= as_blocks(ts.last().content));
                        v
                    },
                };
                let ghost before = blocks@;
                blocks.push(block);
                assert(items_view(blocks@) =~= items_view(before).push(block@));
                assert(turns_view(turns@) =~= ts.drop_last());
                push_turn(turns, Turn { user: true, content: Content::Blocks(blocks) });
            },
            None => {},
        }
    } else {
        proof {
            if n > 0 {
                assert(ts.last() == turns@.last()@);
            }
        }
        let mut blocks: Vec<Json> = Vec::new();
        blocks.push(block);
        assert(items_view(blocks@) =~= seq![block@]);
        push_turn(turns, Turn { user: true, content: Content::Blocks(blocks) });
    }
}

fn take_message(system: &mut String, turns: &mut Vec<Turn>, m: &Message)
    ensures
        (final(system)@, turns_view(final(turns)@)) == after_message(
            old(system)@,
            turns_view(old(turns)@),
            m@,
        ),
{
    let role = m.role.as_str();
    proof {
        distinct_roles();
    }
    if same(role, "system") {
        if !system.as_str().is_empty() {
            system.push('\n');
        }
        let ghost before = system@;
        match &m.content {
            Some(c) => {
                system.append(c.as_str());
            },
            None => {
                assert(before + Seq::<char>::empty() =~= before);
            },
        }
    } else if same(role, "user") {
        push_turn(turns, Turn { user: true, content: Content::Text(opt_or_empty(&m.content)) });
    } else if same(role, "assistant") {
        push_turn(turns, Turn { user: false, content: Content::Blocks(blocks_of(m)) });
    } else if same(role, "tool") {
        let id = opt_or_empty(&m.tool_call_id);
        let content = opt_or_empty(&m.content);
        let block = Json::object().with_text("type", "tool_result").with_text(
            "tool_use_id",
            id.as_str(),
        ).with_text("content", content.as_str());
        add_result(turns, block);
    }
}

proof fn distinct_roles()
    ensures
        "system"@ != "user"@,
        "system"@ != "tool"@,
        "system"@ != "assistant"@,
        "user"@ != "assistant"@,
        "user"@ != "tool"@,
        "assistant"@ != "tool"@,
{
    reveal_strlit("system");
    reveal_strlit("user");
    reveal_strlit("assistant");
    reveal_strlit("tool");
    assert("system"@[0] != "user"@[0]);
    assert("system"@[0] != "tool"@[0]);
    assert("system"@[0] != "assistant"@[0]);
    assert("user"@[0] != "assistant"@[0]);
    assert("user"@[0] != "tool"@[0]);
    assert("assistant"@[0] != "tool"@[0]);
}

/// The system text and the turns of a conversation as documents.
pub fn to_anthropic_messages(msgs: &Vec<Message>) -> (r: (String, Vec<Json>))
    ensures
        ({
            let (system, turns) = anthropic_turns(messages_view(msgs@));
            r.0@ == system && items_view(r.1@) == Seq::new(
                turns.len(),
                |i: int| turn_json(turns[i]),
            )
        }),
{
    let mut system = String::new();
    let mut turns: Vec<Turn> = Vec::new();
    let n: usize = msgs.len();
    let mut i: usize = 0;
    let ghost all = messages_view(msgs@);
    assert(all.take(0) =~= Seq::empty());
    assert(turns_view(turns@) =~= Seq::empty());
    while i < n
        invariant
            i <= n,
            n == msgs@.len(),
            all == messages_view(msgs@),
            (system@, turns_view(turns@)) == anthropic_turns(all.take(i as int)),
        decreases n - i,
    {
        proof {
            assert(all.take(i as int + 1).drop_last() =~= all.take(i as int));
            assert(all[i as int] == msgs@[i as int]@);
        }
        take_message(&mut system, &mut turns, &msgs[i]);
        i += 1;
    }
    assert(all.take(n as int) =~= all);
    let ghost ts = turns_view(turns@);
    let out = turns_to_json(turns);
    assert(items_view(out@) =~= Seq::new(ts.len(), |i: int| turn_json(ts[i])));
    (system, out)
}

fn turns_to_json(turns: Vec<Turn>) -> (r: Vec<Json>)
    ensures
        r@.len() == turns@.len(),
        forall|i: int| 0 <= i < turns@.len() ==> (#[trigger] r@[i])@ == turn_json(turns@[i]@),
{
    let mut rest = turns;
    let ghost all = rest@;
    let mut out: Vec<Json> = Vec::new();
    while rest.len() > 0
        invariant
            rest@.len() + out@.len() == all.len(),
            rest@ == all.take(rest@.len() as int),
            forall|j: int|
                0 <= j < out@.len() ==> (#[trigger] out@[j])@ == turn_json(
                    all[rest@.len() + j]@,
                ),
        decreases rest@.len(),
    {
        let ghost k = rest@.len() - 1;
        match rest.pop() {
            Some(t) => {
                let role = if t.user {
                    "user"
                } else {
                    "assistant"
                };
                let content = match t.content {
                    Content::Text(s) => Json::Str(s),
                    Content::Blocks(v) => {
                        proof {
                            lemma_arr_view(v);
                        }
                        Json::Arr(v)
                    },
                };
                let j = Json::object().with_text("role", role).with("content", content);
                let ghost before = out@;
                assert(j@ == turn_json(all[k]@));
                out.insert(0, j);
                proof {
                    assert(rest@ =~= all.take(k));
                    assert forall|j: int| 0 <= j < out@.len() implies (#[trigger] out@[j])@
                        == turn_json(all[k + j]@) by {
                        if j > 0 {
                            assert(out@[j] == before[j - 1]);
                        }
                    }
                }
            },
            None => {},
        }
    }
    out
}

/// What a block of an Anthropic reply adds to the text and the calls.
pub open spec fn after_block(text: Seq<char>, calls: Seq<CallView>, block: JVal) -> (
    Seq<char>,
    Seq<CallView>,
) {
    match block.field("type"@).as_text() {
        Some(t) => if t == "text"@ {
            (text + text_or_empty(block.field("text"@)), calls)
        } else if t == "tool_use"@ {
            (
                text,
                calls.push(
                    CallView {
                        id: text_or_empty(block.field("id"@)),
                        call_type: "function"@,
                        name: text_or_empty(block.field("name"@)),
                        arguments: json_text(block.field("input"@)),
                    },
                ),
            )
        } else {
            (text, calls)
        },
        None => (text, calls),
    }
}

/// The text and the calls of a list of blocks.
pub open spec fn all_blocks(blocks: Seq<JVal>) -> (Seq<char>, Seq<CallView>)
    decreases blocks.len(),
{
    if blocks.len() == 0 {
        (Seq::empty(), Seq::empty())
    } else {
        let (text, calls) = all_blocks(blocks.drop_last());
        after_block(text, calls, blocks.last())
    }
}

fn field_text(v: &Json, key: &str) -> (r: String)
    ensures
        r@ == text_or_empty(v@.field(key@)),
{
    match v.text_field(key) {
        Some(s) => copy(s),
        None => String::new(),
    }
}

fn take_block(text: &mut String, calls: &mut Vec<ToolCall>, block: &Json)
    ensures
        (final(text)@, calls_view(final(calls)@)) == after_block(
            old(text)@,
            calls_view(old(calls)@),
            block@,
        ),
{
    let kind = match block.text_field("type") {
        Some(t) => t,
        None => {
            return ;
        },
    };
    if same(kind, "text") {
        let t = field_text(block, "text");
        text.append(t.as_str());
    } else if same(kind, "tool_use") {
        let arguments = match block.get("input") {
            Some(v) => render(v),
            None => render(&Json::Null),
        };
        let call = ToolCall {
            id: field_text(block, "id"),
            call_type: default_tc_type(),
            function: FunctionCall { name: field_text(block, "name"), arguments },
        };
        let ghost before = calls@;
        calls.push(call);
        assert(calls_view(calls@) =~= calls_view(before).push(call@));
    }
}

/// The message of an Anthropic reply.
pub fn from_anthropic_response(v: &Json) -> (r: Result<Message, String>)
    ensures
        match v@.field("content"@) {
            JVal::Arr(blocks) => {
                let (text, calls) = all_blocks(blocks);
                r is Ok && r->Ok_0@ == reply_view(
                    text,
                    calls,
                    usage_in(v@.field("usage"@), "input_tokens"@, "output_tokens"@),
                )
            },
            _ => r is Err && r->Err_0@ == "no content: "@ + json_text(v@),
        },
{
    let content = match v.array_field("content") {
        Some(c) => c,
        None => {
            let text = render(v);
            return Err(cat2("no content: ", text.as_str()));
        },
    };
    let mut text = String::new();
    let mut calls: Vec<ToolCall> = Vec::new();
    let n: usize = content.len();
    let mut i: usize = 0;
    let ghost all = items_view(content@);
    assert(all.take(0) =~= Seq::empty());
    assert(calls_view(calls@) =~= Seq::empty());
    while i < n
        invariant
            i <= n,
            n == content@.len(),
            all == items_view(content@),
            (text@, calls_view(calls@)) == all_blocks(all.take(i as int)),
        decreases n - i,
    {
        proof {
            assert(all.take(i as int + 1).drop_last() =~= all.take(i as int));
            assert(all[i as int] == content@[i as int]@);
        }
        take_block(&mut text, &mut calls, &content[i]);
        i += 1;
    }
    assert(all.take(n as int) =~= all);
    let usage = read_usage(v, "input_tokens", "output_tokens");
    Ok(reply_message(text, calls, usage))
}

/// The message in a reply of an OpenAI-compatible server.
pub fn openai_reply(v: &Json) -> (r: Result<&Json, String>)
    ensures
        match v@.field("choices"@).item(0).get("message"@) {
            Some(m) => r is Ok && r->Ok_0@ == m,
            None => r is Err && r->Err_0@ == "no message: "@ + json_text(v@),
        },
{
    if let Some(choices) = v.array_field("choices") {
        if choices.len() > 0 {
            assert(items_view(choices@)[0] == choices@[0]@);
            if let Some(m) = choices[0].get("message") {
                return Ok(m);
            }
        }
    }
    let text = render(v);
    Err(cat2("no message: ", text.as_str()))
}

/// An OpenAI-compatible server always receives a content string with an
/// assistant or a tool message.
pub proof fn assistant_and_tool_content_is_never_missing(m: MessageView)
    requires
        m.role == "assistant"@ || m.role == "tool"@,
    ensures
        openai_message(m).get("content"@) == Some(JVal::Str(or_empty(m.content))),
{
    reveal_strlit("role");
    reveal_strlit("content");
    reveal_strlit("tool_calls");
    reveal_strlit("tool_call_id");
    reveal_strlit("name");
    assert("role"@[0] != "content"@[0]);
    assert("tool_calls"@[0] != "content"@[0]);
    assert("tool_call_id"@[0] != "content"@[0]);
    assert("name"@[0] != "content"@[0]);
    let key = "content"@;
    let o = JVal::object();
    let r = o.with("role"@, JVal::Str(m.role));
    lemma_get_with(o, "role"@, JVal::Str(m.role), key);
    let a = with_opt(r, "content"@, m.content);
    if m.content is Some {
        lemma_get_with(r, key, JVal::Str(m.content->0), key);
    }
    let b = match m.tool_calls {
        Some(cs) => {
            let calls = JVal::Arr(Seq::new(cs.len(), |i: int| call_json(cs[i])));
            lemma_get_with(a, "tool_calls"@, calls, key);
            a.with("tool_calls"@, calls)
        },
        None => a,
    };
    if m.tool_call_id is Some {
        lemma_get_with(b, "tool_call_id"@, JVal::Str(m.tool_call_id->0), key);
    }
    let c = with_opt(b, "tool_call_id"@, m.tool_call_id);
    if m.name is Some {
        lemma_get_with(c, "name"@, JVal::Str(m.name->0), key);
    }
    let d = with_opt(c, "name"@, m.name);
    assert(d == message_json(m));
    if m.content is None {
        lemma_get_with(d, key, JVal::Str(Seq::empty()), key);
    }
}

} // verus!
