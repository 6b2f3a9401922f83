//! What a request to a provider holds, and what follows when it fails.
use vstd::prelude::*;
use crate::decimal::dec;
use crate::json::{lemma_get_with, JVal};
use crate::message::MessageView;
use crate::net::backend::{
    anthropic_body, anthropic_tool, anthropic_tools, openai_body, request_headers, with_stream,
    with_tools, Kind,
};
use crate::net::convert::{anthropic_turns, openai_message, turn_json};
use crate::net::retry::{
    clean_line, failure_text, first_line_end, may_retry, redacted, secret_line, RetryError,
    RetryRun,
};
use crate::search::lower_ascii_text;
use crate::text_laws::free_of;

verus! {

/// Every request says that it is JSON; one with a key shows it in the header of its
/// provider's family, and nowhere else.
pub proof fn a_key_goes_into_its_own_header(key: Seq<char>)
    ensures
        request_headers(Kind::Openai, None) == seq![("Content-Type"@, "application/json"@)],
        request_headers(Kind::Anthropic, None) == seq![("Content-Type"@, "application/json"@)],
        request_headers(Kind::Openai, Some(key)) == seq![
            ("Content-Type"@, "application/json"@),
            ("Authorization"@, "Bearer "@ + key),
        ],
        request_headers(Kind::Anthropic, Some(key)) == seq![
            ("Content-Type"@, "application/json"@),
            ("x-api-key"@, key),
            ("anthropic-version"@, "2023-06-01"@),
        ],
{
    assert(request_headers(Kind::Openai, Some(key)) =~= seq![
        ("Content-Type"@, "application/json"@),
        ("Authorization"@, "Bearer "@ + key),
    ]);
    assert(request_headers(Kind::Anthropic, Some(key)) =~= seq![
        ("Content-Type"@, "application/json"@),
        ("x-api-key"@, key),
        ("anthropic-version"@, "2023-06-01"@),
    ]);
}

proof fn lemma_body_keys()
    ensures
        "model"@ != "messages"@,
        "model"@ != "tools"@,
        "model"@ != "stream"@,
        "model"@ != "system"@,
        "model"@ != "max_tokens"@,
        "messages"@ != "tools"@,
        "messages"@ != "stream"@,
        "messages"@ != "system"@,
        "messages"@ != "max_tokens"@,
        "tools"@ != "stream"@,
        "tools"@ != "system"@,
        "tools"@ != "max_tokens"@,
        "stream"@ != "system"@,
        "stream"@ != "max_tokens"@,
        "system"@ != "max_tokens"@,
{
    reveal_strlit("model");
    reveal_strlit("messages");
    reveal_strlit("tools");
    reveal_strlit("stream");
    reveal_strlit("system");
    reveal_strlit("max_tokens");
    assert("model"@.len() == 5 && "messages"@.len() == 8 && "tools"@.len() == 5 && "stream"@.len()
        == 6 && "system"@.len() == 6 && "max_tokens"@.len() == 10);
    assert("model"@[0] != "tools"@[0]);
    assert("stream"@[1] != "system"@[1]);
}

/// The tools and the wish to stream are added where there are any.
proof fn lemma_added(body: JVal, tools: JVal, streaming: bool, key: Seq<char>)
    requires
        body is Obj,
        body.get("tools"@) is None,
        body.get("stream"@) is None,
    ensures
        with_stream(with_tools(body, tools), streaming).get(key) == (if key == "stream"@ {
            if streaming {
                Some(JVal::Bool(true))
            } else {
                None
            }
        } else if key == "tools"@ {
            if tools is Arr && tools->Arr_0.len() > 0 {
                Some(tools)
            } else {
                None
            }
        } else {
            body.get(key)
        }),
{
    lemma_body_keys();
    lemma_get_with(body, "tools"@, tools, key);
    lemma_get_with(body, "tools"@, tools, "stream"@);
    lemma_get_with(with_tools(body, tools), "stream"@, JVal::Bool(true), key);
}

/// An OpenAI-style request holds the model, every message in order, the tools where
/// there are any, and the wish to stream where there is one.
pub proof fn an_openai_request_holds_the_conversation(
    model: Seq<char>,
    msgs: Seq<MessageView>,
    tools: JVal,
    streaming: bool,
)
    ensures
        ({
            let body = openai_body(model, msgs, tools, streaming);
            &&& body.get("model"@) == Some(JVal::Str(model))
            &&& body.get("messages"@) == Some(
                JVal::Arr(msgs.map_values(|m: MessageView| openai_message(m))),
            )
            &&& body.get("tools"@) == (if tools is Arr && tools->Arr_0.len() > 0 {
                Some(tools)
            } else {
                None
            })
            &&& body.get("stream"@) == (if streaming {
                Some(JVal::Bool(true))
            } else {
                None
            })
        }),
{
    lemma_body_keys();
    let o = JVal::object();
    let name = JVal::Str(model);
    let list = JVal::Arr(Seq::new(msgs.len(), |i: int| openai_message(msgs[i])));
    assert(list->Arr_0 =~= msgs.map_values(|m: MessageView| openai_message(m)));
    let a = o.with("model"@, name);
    let b = a.with("messages"@, list);
    lemma_two(o, "model"@, name, "messages"@, list, "model"@);
    lemma_two(o, "model"@, name, "messages"@, list, "messages"@);
    lemma_two(o, "model"@, name, "messages"@, list, "tools"@);
    lemma_two(o, "model"@, name, "messages"@, list, "stream"@);
    lemma_added(b, tools, streaming, "model"@);
    lemma_added(b, tools, streaming, "messages"@);
    lemma_added(b, tools, streaming, "tools"@);
    lemma_added(b, tools, streaming, "stream"@);
}

proof fn lemma_two(o: JVal, k1: Seq<char>, v1: JVal, k2: Seq<char>, v2: JVal, key: Seq<char>)
    requires
        o == JVal::object(),
        k1 != k2,
    ensures
        o.with(k1, v1).with(k2, v2).get(key) == (if key == k1 {
            Some(v1)
        } else if key == k2 {
            Some(v2)
        } else {
            None
        }),
{
    lemma_get_with(o, k1, v1, key);
    lemma_get_with(o.with(k1, v1), k2, v2, key);
}

/// An Anthropic request holds the model, the turns in order, the system text where there
/// is one, a limit on the reply, the tools where there are any, and the wish to stream
/// where there is one.
pub proof fn an_anthropic_request_holds_the_conversation(
    model: Seq<char>,
    msgs: Seq<MessageView>,
    tools: JVal,
    streaming: bool,
)
    ensures
        ({
            let body = anthropic_body(model, msgs, tools, streaming);
            let (system, turns) = anthropic_turns(msgs);
            &&& body.get("model"@) == Some(JVal::Str(model))
            &&& body.get("messages"@) == Some(
                JVal::Arr(
                    turns.map_values(|t: crate::net::convert::TurnView| turn_json(t)),
                ),
            )
            &&& body.get("max_tokens"@) == Some(JVal::UInt(4096))
            &&& body.get("system"@) == (if system.len() > 0 {
                Some(JVal::Str(system))
            } else {
                None
            })
            &&& body.get("tools"@) == (if tools is Arr && tools->Arr_0.len() > 0 {
                Some(anthropic_tools(tools))
            } else {
                None
            })
            &&& body.get("stream"@) == (if streaming {
                Some(JVal::Bool(true))
            } else {
                None
            })
        }),
{
    lemma_body_keys();
    let (system, turns) = anthropic_turns(msgs);
    let o = JVal::object();
    let list = JVal::Arr(Seq::new(turns.len(), |i: int| turn_json(turns[i])));
    assert(list->Arr_0 =~= turns.map_values(|t: crate::net::convert::TurnView| turn_json(t)));
    let keys = seq!["model"@, "messages"@, "max_tokens"@, "system"@, "tools"@, "stream"@];
    assert forall|i: int| 0 <= i < 6 implies anthropic_body(model, msgs, tools, streaming).get(
        #[trigger] keys[i],
    ) == (if i == 0 {
        Some(JVal::Str(model))
    } else if i == 1 {
        Some(list)
    } else if i == 2 {
        Some(JVal::UInt(4096))
    } else if i == 3 {
        if system.len() > 0 {
            Some(JVal::Str(system))
        } else {
            None
        }
    } else if i == 4 {
        if tools is Arr && tools->Arr_0.len() > 0 {
            Some(anthropic_tools(tools))
        } else {
            None
        }
    } else if streaming {
        Some(JVal::Bool(true))
    } else {
        None
    }) by {
        let key = keys[i];
        let name = JVal::Str(model);
        let a = o.with("model"@, name);
        let b = a.with("messages"@, list);
        let c = b.with("max_tokens"@, JVal::UInt(4096));
        lemma_two(o, "model"@, name, "messages"@, list, key);
        lemma_get_with(b, "max_tokens"@, JVal::UInt(4096), key);
        lemma_two(o, "model"@, name, "messages"@, list, "tools"@);
        lemma_get_with(b, "max_tokens"@, JVal::UInt(4096), "tools"@);
        lemma_two(o, "model"@, name, "messages"@, list, "stream"@);
        lemma_get_with(b, "max_tokens"@, JVal::UInt(4096), "stream"@);
        lemma_get_with(c, "system"@, JVal::Str(system), key);
        lemma_get_with(c, "system"@, JVal::Str(system), "tools"@);
        lemma_get_with(c, "system"@, JVal::Str(system), "stream"@);
        let named = if system.len() > 0 {
            c.with("system"@, JVal::Str(system))
        } else {
            c
        };
        lemma_added(named, anthropic_tools(tools), streaming, key);
    }
    assert(keys[0] == "model"@ && keys[1] == "messages"@ && keys[2] == "max_tokens"@ && keys[3]
        == "system"@ && keys[4] == "tools"@ && keys[5] == "stream"@);
}

/// A tool is named, described and given its schema in the words of the family.
pub proof fn tools_keep_their_schema(tools: Seq<JVal>, i: int)
    requires
        0 <= i < tools.len(),
    ensures
        anthropic_tools(JVal::Arr(tools)) is Arr,
        anthropic_tools(JVal::Arr(tools))->Arr_0.len() == tools.len(),
        ({
            let t = anthropic_tools(JVal::Arr(tools)).item(i);
            let f = tools[i].field("function"@);
            &&& t.field("name"@) == f.field("name"@)
            &&& t.field("description"@) == f.field("description"@)
            &&& t.field("input_schema"@) == f.field("parameters"@)
        }),
{
    reveal_strlit("name");
    reveal_strlit("description");
    reveal_strlit("input_schema");
    assert("name"@.len() == 4 && "description"@.len() == 11 && "input_schema"@.len() == 12);
    let f = tools[i].field("function"@);
    let n = f.field("name"@);
    let d = f.field("description"@);
    let p = f.field("parameters"@);
    let o = JVal::object();
    let b = o.with("name"@, n).with("description"@, d);
    assert(anthropic_tool(tools[i]) == b.with("input_schema"@, p));
    lemma_two(o, "name"@, n, "description"@, d, "name"@);
    lemma_two(o, "name"@, n, "description"@, d, "description"@);
    lemma_two(o, "name"@, n, "description"@, d, "input_schema"@);
    lemma_get_with(b, "input_schema"@, p, "name"@);
    lemma_get_with(b, "input_schema"@, p, "description"@);
    lemma_get_with(b, "input_schema"@, p, "input_schema"@);
}

/// A line names a header that carries a key, whatever its case.
pub open spec fn gives_away(line: Seq<char>) -> bool {
    crate::search::has(lower_ascii_text(line), "authorization"@) || crate::search::has(
        lower_ascii_text(line),
        "x-api-key"@,
    )
}

/// A text is cleaned line by line: a line that could give away a key is replaced whole,
/// and every other line stays as it is.
pub proof fn texts_are_cleaned_line_by_line(line: Seq<char>, rest: Seq<char>)
    requires
        free_of(line, '\n'),
    ensures
        redacted(Seq::empty()) == Seq::<char>::empty(),
        redacted(line.push('\n') + rest) == (if gives_away(line.push('\n')) {
            "[redacted header]\n"@
        } else {
            line.push('\n')
        }) + redacted(rest),
        line.len() > 0 ==> redacted(line) == (if gives_away(line) {
            "[redacted header]\n"@
        } else {
            line
        }),
{
    let s = line.push('\n') + rest;
    let n = line.len() as int;
    crate::search::lemma_next_sep(s, '\n', 0);
    let i = crate::search::next_sep(s, '\n', 0);
    assert(s[n] == '\n');
    assert(i == n) by {
        if i < n {
            assert(s[i] == line[i]);
        }
    }
    assert(first_line_end(s) == n + 1);
    assert(s.take(n + 1) =~= line.push('\n'));
    assert(s.skip(n + 1) =~= rest);
    if n > 0 {
        crate::search::lemma_next_sep(line, '\n', 0);
        if crate::search::next_sep(line, '\n', 0) < n {
            assert(line[crate::search::next_sep(line, '\n', 0)] == '\n');
        }
        assert(line.take(n) =~= line);
        assert(line.skip(n) =~= Seq::<char>::empty());
        assert(redacted(line.skip(n)) =~= Seq::<char>::empty());
        assert(redacted(line) == clean_line(line.take(n)) + redacted(line.skip(n)));
        assert(redacted(line) =~= clean_line(line));
    }
    assert(secret_line(line) == gives_away(line));
    assert(secret_line(line.push('\n')) == gives_away(line.push('\n')));
}

/// A failure is tried again when the connection failed or the server was too busy or
/// broken; a request that could not be built or was refused is not.
pub proof fn only_passing_failures_are_tried_again(e: RetryError)
    ensures
        may_retry(e) <==> match e {
            RetryError::Build(_) => false,
            RetryError::Status(code, _) => code == 429 || 500 <= code,
            RetryError::Transport(_) => true,
        },
        match e {
            RetryError::Build(s) => failure_text(e) == s@,
            RetryError::Status(code, body) => failure_text(e) == redacted(
                "http "@ + dec(code as nat) + ": "@ + body@,
            ),
            RetryError::Transport(t) => failure_text(e) == redacted("transport: "@ + t@),
        },
{
}

/// Each pause is twice as long as the one before, up to eight seconds.
pub proof fn pauses_double_up_to_eight_seconds(run: RetryRun, nanos: Option<u64>)
    requires
        run.wf(),
    ensures
        run.base_delay <= 4000 ==> run.after_wait(nanos).base_delay == 2 * run.base_delay,
        run.base_delay > 4000 ==> run.after_wait(nanos).base_delay == 8000,
        run.after_wait(nanos).attempt == run.attempt + 1,
        run.after_wait(nanos).max == run.max,
{
}

} // verus!
