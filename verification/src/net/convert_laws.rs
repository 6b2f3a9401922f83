//! What the conversion of a conversation keeps.
use vstd::prelude::*;
use crate::json::{json_parse, json_text, lemma_get_with, JVal};
use crate::message::{CallView, MessageView};
use crate::net::convert::{
    all_blocks, anthropic_turns, assistant_blocks, call_json, message_json, openai_message,
    or_empty, result_block, text_block, turn_json, use_block, ContentView, TurnView,
};
use crate::search::join;

verus! {

/// A text as a block.
pub open spec fn text_item(s: Seq<char>) -> JVal {
    JVal::Obj(seq![("type"@, JVal::Str("text"@)), ("text"@, JVal::Str(s))])
}

/// A call as a block; arguments that are no document become an empty object.
pub open spec fn call_item(c: CallView) -> JVal {
    JVal::Obj(
        seq![
            ("type"@, JVal::Str("tool_use"@)),
            ("id"@, JVal::Str(c.id)),
            ("name"@, JVal::Str(c.name)),
            (
                "input"@,
                match json_parse(c.arguments) {
                    Ok(v) => v,
                    Err(_) => JVal::Obj(Seq::empty()),
                },
            ),
        ],
    )
}

/// A tool's answer as a block.
pub open spec fn answer_item(m: MessageView) -> JVal {
    JVal::Obj(
        seq![
            ("type"@, JVal::Str("tool_result"@)),
            (
                "tool_use_id"@,
                JVal::Str(
                    match m.tool_call_id {
                        Some(id) => id,
                        None => Seq::empty(),
                    },
                ),
            ),
            (
                "content"@,
                JVal::Str(
                    match m.content {
                        Some(s) => s,
                        None => Seq::empty(),
                    },
                ),
            ),
        ],
    )
}

/// A text as the items that it makes: none where it is empty.
pub open spec fn text_items(s: Option<Seq<char>>) -> Seq<JVal> {
    match s {
        Some(t) => if t.len() > 0 {
            seq![text_item(t)]
        } else {
            Seq::empty()
        },
        None => Seq::empty(),
    }
}

/// What a message says, item by item, with the side that says it.
pub open spec fn said(m: MessageView) -> Seq<(bool, JVal)> {
    if m.role == "user"@ {
        text_items(m.content).map_values(|v: JVal| (true, v))
    } else if m.role == "assistant"@ {
        (text_items(m.content) + (match m.tool_calls {
            Some(cs) => cs.map_values(|c: CallView| call_item(c)),
            None => Seq::empty(),
        })).map_values(|v: JVal| (false, v))
    } else if m.role == "tool"@ {
        seq![(true, answer_item(m))]
    } else {
        Seq::empty()
    }
}

/// What a conversation says, item by item.
pub open spec fn all_said(msgs: Seq<MessageView>) -> Seq<(bool, JVal)>
    decreases msgs.len(),
{
    if msgs.len() == 0 {
        Seq::empty()
    } else {
        all_said(msgs.drop_last()) + said(msgs.last())
    }
}

/// What a turn says, item by item.
pub open spec fn turn_items(t: TurnView) -> Seq<(bool, JVal)> {
    (match t.content {
        ContentView::Text(s) => text_items(Some(s)),
        ContentView::Blocks(v) => v,
    }).map_values(|v: JVal| (t.user, v))
}

/// What the turns say, item by item.
pub open spec fn all_items(turns: Seq<TurnView>) -> Seq<(bool, JVal)>
    decreases turns.len(),
{
    if turns.len() == 0 {
        Seq::empty()
    } else {
        all_items(turns.drop_last()) + turn_items(turns.last())
    }
}

proof fn lemma_items(s: Seq<char>, c: CallView, m: MessageView)
    ensures
        text_block(s) == text_item(s),
        use_block(c) == call_item(c),
        result_block(or_empty(m.tool_call_id), or_empty(m.content)) == answer_item(m),
{
    assert(text_block(s)->Obj_0 =~= text_item(s)->Obj_0);
    assert(use_block(c)->Obj_0 =~= call_item(c)->Obj_0);
    assert(result_block(or_empty(m.tool_call_id), or_empty(m.content))->Obj_0 =~= answer_item(
        m,
    )->Obj_0);
}

proof fn lemma_roles()
    ensures
        "system"@ != "user"@,
        "system"@ != "assistant"@,
        "system"@ != "tool"@,
        "user"@ != "assistant"@,
        "user"@ != "tool"@,
        "assistant"@ != "tool"@,
{
    reveal_strlit("system");
    reveal_strlit("user");
    reveal_strlit("assistant");
    reveal_strlit("tool");
    assert("system"@[0] != "user"@[0]);
    assert("system"@[0] != "assistant"@[0]);
    assert("system"@[0] != "tool"@[0]);
    assert("user"@[0] != "assistant"@[0]);
    assert("user"@[0] != "tool"@[0]);
    assert("assistant"@[0] != "tool"@[0]);
}

/// Nothing of a conversation is lost, added or moved: the turns say what the messages
/// said, item by item and on the same side.
pub proof fn turns_say_what_the_messages_said(msgs: Seq<MessageView>)
    ensures
        all_items(anthropic_turns(msgs).1) == all_said(msgs),
    decreases msgs.len(),
{
    if msgs.len() > 0 {
        let m = msgs.last();
        turns_say_what_the_messages_said(msgs.drop_last());
        let (system, turns) = anthropic_turns(msgs.drop_last());
        let after = anthropic_turns(msgs).1;
        let before = all_items(turns);
        lemma_roles();
        lemma_items(or_empty(m.content), arbitrary(), m);
        if m.role == "user"@ {
            assert(after.drop_last() =~= turns);
            assert(turn_items(after.last()) =~= said(m));
        } else if m.role == "assistant"@ {
            assert(after.drop_last() =~= turns);
            if m.tool_calls is Some {
                let cs = m.tool_calls->0;
                assert forall|i: int| 0 <= i < cs.len() implies use_block(#[trigger] cs[i])
                    == call_item(cs[i]) by {
                    lemma_items(Seq::empty(), cs[i], m);
                }
                assert(Seq::new(cs.len(), |i: int| use_block(cs[i])) =~= cs.map_values(
                    |c: CallView| call_item(c),
                ));
            } else {
                assert(text_items(m.content) + Seq::<JVal>::empty() =~= text_items(m.content));
            }
            assert(turn_items(after.last()) =~= said(m));
        } else if m.role == "tool"@ {
            if turns.len() > 0 && turns.last().user {
                assert(after.drop_last() =~= turns.drop_last());
                let t = turns.last();
                match t.content {
                    ContentView::Text(s) => {
                        lemma_items(s, arbitrary(), m);
                    },
                    ContentView::Blocks(v) => {},
                }
                assert(turn_items(after.last()) =~= turn_items(t) + said(m));
                assert(all_items(after) =~= before + said(m));
            } else {
                assert(after.drop_last() =~= turns);
                assert(turn_items(after.last()) =~= said(m));
            }
        } else {
            assert(all_said(msgs) =~= before);
        }
    }
}

/// Each message of the user and of the assistant begins a turn of its own, and leaves
/// the turns before it as they are. A user's turn is plain text.
pub proof fn spoken_messages_are_turns(msgs: Seq<MessageView>, m: MessageView)
    requires
        m.role == "user"@ || m.role == "assistant"@,
    ensures
        ({
            let before = anthropic_turns(msgs).1;
            let after = anthropic_turns(msgs.push(m)).1;
            &&& after.len() == before.len() + 1
            &&& after.drop_last() == before
            &&& after.last().user == (m.role == "user"@)
            &&& m.role == "user"@ ==> after.last().content == ContentView::Text(
                match m.content {
                    Some(s) => s,
                    None => Seq::empty(),
                },
            )
            &&& m.role == "assistant"@ ==> after.last().content is Blocks
            &&& anthropic_turns(msgs.push(m)).0 == anthropic_turns(msgs).0
        }),
{
    lemma_roles();
    assert(msgs.push(m).drop_last() =~= msgs);
    assert(anthropic_turns(msgs.push(m)).1.drop_last() =~= anthropic_turns(msgs).1);
}

/// The results that directly follow an assistant's message make up one user turn, which
/// holds exactly one block for each of them, in their order; nothing else changes.
pub proof fn results_make_up_one_turn(
    msgs: Seq<MessageView>,
    m: MessageView,
    answers: Seq<MessageView>,
)
    requires
        m.role == "assistant"@,
        answers.len() > 0,
        forall|i: int| 0 <= i < answers.len() ==> (#[trigger] answers[i]).role == "tool"@,
    ensures
        ({
            let before = anthropic_turns(msgs.push(m)).1;
            let after = anthropic_turns(msgs.push(m) + answers).1;
            &&& after.len() == before.len() + 1
            &&& after.drop_last() == before
            &&& after.last().user
            &&& after.last().content == ContentView::Blocks(
                answers.map_values(|a: MessageView| answer_item(a)),
            )
        }),
    decreases answers.len(),
{
    lemma_roles();
    let start = msgs.push(m);
    let rest = answers.drop_last();
    let a = answers.last();
    let all = start + answers;
    assert(all.drop_last() =~= start + rest);
    assert(all.last() == a);
    assert(a.role == "tool"@);
    lemma_items(Seq::empty(), arbitrary(), a);
    spoken_messages_are_turns(msgs, m);
    let before = anthropic_turns(start).1;
    let after = anthropic_turns(all).1;
    if rest.len() == 0 {
        assert(start + rest =~= start);
        assert(after.drop_last() =~= before);
        assert(answers.map_values(|a: MessageView| answer_item(a)) =~= seq![answer_item(a)]);
    } else {
        assert forall|i: int| 0 <= i < rest.len() implies (#[trigger] rest[i]).role == "tool"@ by {
            assert(rest[i] == answers[i]);
        }
        results_make_up_one_turn(msgs, m, rest);
        assert(after.drop_last() =~= before);
        assert(answers.map_values(|a: MessageView| answer_item(a)) =~= rest.map_values(
            |a: MessageView| answer_item(a),
        ).push(answer_item(a)));
    }
}

/// The texts of the system messages.
pub open spec fn system_texts(msgs: Seq<MessageView>) -> Seq<Seq<char>> {
    msgs.filter(|m: MessageView| m.role == "system"@).map_values(
        |m: MessageView|
            match m.content {
                Some(s) => s,
                None => Seq::empty(),
            },
    )
}

/// The system text holds the system messages, each on a line of its own, wherever they
/// stand; they make no turns.
pub proof fn system_messages_are_collected(msgs: Seq<MessageView>)
    requires
        forall|i: int|
            0 <= i < system_texts(msgs).len() ==> (#[trigger] system_texts(msgs)[i]).len() > 0,
    ensures
        anthropic_turns(msgs).0 == join(system_texts(msgs), seq!['\n']),
        system_texts(msgs).len() > 0 ==> anthropic_turns(msgs).0.len() > 0,
        msgs.len() > 0 && msgs.last().role == "system"@ ==> anthropic_turns(msgs).1
            == anthropic_turns(msgs.drop_last()).1,
    decreases msgs.len(),
{
    lemma_roles();
    if msgs.len() == 0 {
        assert(system_texts(msgs) =~= Seq::empty());
    } else {
        let p = msgs.drop_last();
        let m = msgs.last();
        let is_system = |m: MessageView| m.role == "system"@;
        assert(msgs =~= p.push(m));
        p.lemma_filter_push(m, is_system);
        let old = system_texts(p);
        let all = system_texts(msgs);
        if m.role == "system"@ {
            let t = match m.content {
                Some(s) => s,
                None => Seq::empty(),
            };
            assert(all =~= old.push(t));
            assert(all[old.len() as int] == t);
            assert forall|i: int| 0 <= i < old.len() implies (#[trigger] old[i]).len() > 0 by {
                assert(all[i] == old[i]);
            }
            system_messages_are_collected(p);
            assert(all.drop_last() =~= old);
            let s = anthropic_turns(p).0;
            if old.len() == 0 {
                assert(s.len() == 0);
                assert(s + t =~= t);
            } else {
                assert(s.push('\n') + t =~= s + seq!['\n'] + t);
            }
        } else {
            assert(all =~= old);
            system_messages_are_collected(p);
        }
    }
}

/// A turn as a document names its side and holds its text or its blocks.
pub proof fn turns_are_written_whole(t: TurnView)
    ensures
        turn_json(t).get("role"@) == Some(
            JVal::Str(
                if t.user {
                    "user"@
                } else {
                    "assistant"@
                },
            ),
        ),
        turn_json(t).get("content"@) == Some(
            match t.content {
                ContentView::Text(s) => JVal::Str(s),
                ContentView::Blocks(v) => JVal::Arr(v),
            },
        ),
        turn_json(t) is Obj,
        turn_json(t)->Obj_0.len() == 2,
{
    lemma_keys();
    let o = JVal::object();
    let role = turn_json(t)->Obj_0[0].1;
    let content = turn_json(t)->Obj_0[1].1;
    let a = o.with("role"@, role);
    lemma_get_with(o, "role"@, role, "role"@);
    lemma_get_with(o, "role"@, role, "content"@);
    lemma_get_with(a, "content"@, content, "role"@);
    lemma_get_with(a, "content"@, content, "content"@);
}

/// An optional text as an optional string of a document.
pub open spec fn opt_str(s: Option<Seq<char>>) -> Option<JVal> {
    match s {
        Some(t) => Some(JVal::Str(t)),
        None => None,
    }
}

/// An OpenAI-style message gives back the message: its role, its content, its calls
/// in order, and the call that it answers.
pub proof fn openai_messages_are_written_whole(m: MessageView)
    ensures
        openai_message(m).get("role"@) == Some(JVal::Str(m.role)),
        openai_message(m).get("tool_call_id"@) == opt_str(m.tool_call_id),
        openai_message(m).get("name"@) == opt_str(m.name),
        m.role != "assistant"@ && m.role != "tool"@ || m.content is Some ==> openai_message(m).get(
            "content"@,
        ) == opt_str(m.content),
        m.tool_calls is None ==> openai_message(m).get("tool_calls"@) is None,
        m.tool_calls is Some ==> {
            let written = openai_message(m).get("tool_calls"@);
            let cs = m.tool_calls->0;
            &&& written is Some
            &&& written->0 is Arr
            &&& written->0->Arr_0.len() == cs.len()
            &&& forall|i: int|
                #![trigger cs[i]]
                0 <= i < cs.len() ==> {
                    let c = written->0.item(i);
                    &&& c.get("id"@) == Some(JVal::Str(cs[i].id))
                    &&& c.get("type"@) == Some(JVal::Str(cs[i].call_type))
                    &&& c.field("function"@).get("name"@) == Some(JVal::Str(cs[i].name))
                    &&& c.field("function"@).get("arguments"@) == Some(JVal::Str(cs[i].arguments))
                }
        },
{
    lemma_message_field(m, "role"@);
    lemma_message_field(m, "content"@);
    lemma_message_field(m, "tool_calls"@);
    lemma_message_field(m, "tool_call_id"@);
    lemma_message_field(m, "name"@);
    lemma_keys();
    if m.tool_calls is Some {
        let cs = m.tool_calls->0;
        assert forall|i: int| #![trigger cs[i]] 0 <= i < cs.len() implies {
            let c = call_json(cs[i]);
            &&& c.get("id"@) == Some(JVal::Str(cs[i].id))
            &&& c.get("type"@) == Some(JVal::Str(cs[i].call_type))
            &&& c.field("function"@).get("name"@) == Some(JVal::Str(cs[i].name))
            &&& c.field("function"@).get("arguments"@) == Some(JVal::Str(cs[i].arguments))
        } by {
            lemma_call_fields(cs[i]);
        }
    }
}

proof fn lemma_keys()
    ensures
        "role"@ != "content"@,
        "role"@ != "tool_calls"@,
        "role"@ != "tool_call_id"@,
        "role"@ != "name"@,
        "content"@ != "tool_calls"@,
        "content"@ != "tool_call_id"@,
        "content"@ != "name"@,
        "tool_calls"@ != "tool_call_id"@,
        "tool_calls"@ != "name"@,
        "tool_call_id"@ != "name"@,
        "id"@ != "type"@,
        "id"@ != "function"@,
        "type"@ != "function"@,
        "name"@ != "arguments"@,
{
    reveal_strlit("role");
    reveal_strlit("content");
    reveal_strlit("tool_calls");
    reveal_strlit("tool_call_id");
    reveal_strlit("name");
    reveal_strlit("id");
    reveal_strlit("type");
    reveal_strlit("function");
    reveal_strlit("arguments");
    assert("role"@[0] != "content"@[0]);
    assert("role"@[0] != "tool_calls"@[0]);
    assert("role"@[0] != "tool_call_id"@[0]);
    assert("role"@[0] != "name"@[0]);
    assert("content"@[0] != "tool_calls"@[0]);
    assert("content"@[0] != "tool_call_id"@[0]);
    assert("content"@[0] != "name"@[0]);
    assert("tool_calls"@.len() != "tool_call_id"@.len());
    assert("tool_calls"@[0] != "name"@[0]);
    assert("tool_call_id"@[0] != "name"@[0]);
    assert("id"@[0] != "type"@[0]);
    assert("id"@[0] != "function"@[0]);
    assert("type"@[0] != "function"@[0]);
    assert("name"@[0] != "arguments"@[0]);
}

proof fn lemma_call_fields(c: CallView)
    ensures
        call_json(c).get("id"@) == Some(JVal::Str(c.id)),
        call_json(c).get("type"@) == Some(JVal::Str(c.call_type)),
        call_json(c).field("function"@).get("name"@) == Some(JVal::Str(c.name)),
        call_json(c).field("function"@).get("arguments"@) == Some(JVal::Str(c.arguments)),
{
    lemma_keys();
    let o = JVal::object();
    let f1 = o.with("name"@, JVal::Str(c.name));
    let f = f1.with("arguments"@, JVal::Str(c.arguments));
    let a = o.with("id"@, JVal::Str(c.id));
    let b = a.with("type"@, JVal::Str(c.call_type));
    lemma_get_with(o, "name"@, JVal::Str(c.name), "name"@);
    lemma_get_with(o, "name"@, JVal::Str(c.name), "arguments"@);
    lemma_get_with(f1, "arguments"@, JVal::Str(c.arguments), "name"@);
    lemma_get_with(f1, "arguments"@, JVal::Str(c.arguments), "arguments"@);
    lemma_get_with(o, "id"@, JVal::Str(c.id), "id"@);
    lemma_get_with(o, "id"@, JVal::Str(c.id), "type"@);
    lemma_get_with(o, "id"@, JVal::Str(c.id), "function"@);
    lemma_get_with(a, "type"@, JVal::Str(c.call_type), "id"@);
    lemma_get_with(a, "type"@, JVal::Str(c.call_type), "type"@);
    lemma_get_with(a, "type"@, JVal::Str(c.call_type), "function"@);
    lemma_get_with(b, "function"@, f, "id"@);
    lemma_get_with(b, "function"@, f, "type"@);
    lemma_get_with(b, "function"@, f, "function"@);
}

/// What a message's document holds under a key.
proof fn lemma_message_field(m: MessageView, key: Seq<char>)
    ensures
        message_json(m).get(key) == (if key == "role"@ {
            Some(JVal::Str(m.role))
        } else if key == "content"@ {
            opt_str(m.content)
        } else if key == "tool_calls"@ {
            match m.tool_calls {
                Some(cs) => Some(JVal::Arr(Seq::new(cs.len(), |i: int| call_json(cs[i])))),
                None => None,
            }
        } else if key == "tool_call_id"@ {
            opt_str(m.tool_call_id)
        } else if key == "name"@ {
            opt_str(m.name)
        } else {
            None
        }),
        key != "content"@ ==> openai_message(m).get(key) == message_json(m).get(key),
        m.role != "assistant"@ && m.role != "tool"@ || m.content is Some ==> openai_message(m)
            == message_json(m),
        message_json(m) is Obj,
{
    lemma_keys();
    let o = JVal::object();
    lemma_get_with(o, "role"@, JVal::Str(m.role), key);
    let r = o.with("role"@, JVal::Str(m.role));
    let a = match m.content {
        Some(t) => {
            lemma_get_with(r, "content"@, JVal::Str(t), key);
            r.with("content"@, JVal::Str(t))
        },
        None => r,
    };
    let b = match m.tool_calls {
        Some(cs) => {
            let v = JVal::Arr(Seq::new(cs.len(), |i: int| call_json(cs[i])));
            lemma_get_with(a, "tool_calls"@, v, key);
            a.with("tool_calls"@, v)
        },
        None => a,
    };
    let c = match m.tool_call_id {
        Some(t) => {
            lemma_get_with(b, "tool_call_id"@, JVal::Str(t), key);
            b.with("tool_call_id"@, JVal::Str(t))
        },
        None => b,
    };
    let d = match m.name {
        Some(t) => {
            lemma_get_with(c, "name"@, JVal::Str(t), key);
            c.with("name"@, JVal::Str(t))
        },
        None => c,
    };
    assert(d == message_json(m));
    lemma_get_with(d, "content"@, JVal::Str(Seq::empty()), key);
}

/// A reply that is written as blocks reads as the same text and the same calls, each
/// with its arguments as they are rendered.
pub proof fn blocks_read_as_they_were_written(m: MessageView)
    ensures
        ({
            let (text, calls) = all_blocks(assistant_blocks(m));
            let asked = match m.tool_calls {
                Some(cs) => cs,
                None => Seq::empty(),
            };
            &&& text == (match m.content {
                Some(s) => s,
                None => Seq::empty(),
            })
            &&& calls.len() == asked.len()
            &&& forall|i: int|
                #![trigger calls[i]]
                0 <= i < calls.len() ==> {
                    &&& calls[i].id == asked[i].id
                    &&& calls[i].name == asked[i].name
                    &&& calls[i].call_type == "function"@
                    &&& json_parse(asked[i].arguments) is Ok ==> calls[i].arguments == json_text(
                        json_parse(asked[i].arguments)->Ok_0,
                    )
                }
        }),
{
    let asked = match m.tool_calls {
        Some(cs) => cs,
        None => Seq::empty(),
    };
    let text = match m.content {
        Some(s) => s,
        None => Seq::empty(),
    };
    lemma_written(text, asked);
    assert(assistant_blocks(m) =~= written(text, asked));
}

spec fn written(text: Seq<char>, asked: Seq<CallView>) -> Seq<JVal> {
    (if text.len() > 0 {
        seq![text_block(text)]
    } else {
        Seq::empty()
    }) + asked.map_values(|c: CallView| use_block(c))
}

proof fn lemma_written(text: Seq<char>, asked: Seq<CallView>)
    ensures
        ({
            let (t, calls) = all_blocks(written(text, asked));
            &&& t == text
            &&& calls.len() == asked.len()
            &&& forall|i: int|
                #![trigger calls[i]]
                0 <= i < calls.len() ==> {
                    &&& calls[i].id == asked[i].id
                    &&& calls[i].name == asked[i].name
                    &&& calls[i].call_type == "function"@
                    &&& json_parse(asked[i].arguments) is Ok ==> calls[i].arguments == json_text(
                        json_parse(asked[i].arguments)->Ok_0,
                    )
                }
        }),
    decreases asked.len(),
{
    let all = written(text, asked);
    lemma_block_fields(text, arbitrary());
    if asked.len() == 0 {
        reveal_with_fuel(all_blocks, 2);
        if text.len() > 0 {
            assert(all =~= seq![text_block(text)]);
            assert(all.drop_last() =~= Seq::empty());
            assert(Seq::<char>::empty() + text =~= text);
        } else {
            assert(all =~= Seq::empty());
            assert(text =~= Seq::empty());
        }
    } else {
        let rest = asked.drop_last();
        let c = asked.last();
        lemma_written(text, rest);
        assert(all.drop_last() =~= written(text, rest));
        assert(all.last() == use_block(c));
        lemma_block_fields(text, c);
    }
}

proof fn lemma_block_fields(s: Seq<char>, c: CallView)
    ensures
        text_block(s).field("type"@) == JVal::Str("text"@),
        text_block(s).field("text"@) == JVal::Str(s),
        use_block(c).field("type"@) == JVal::Str("tool_use"@),
        use_block(c).field("id"@) == JVal::Str(c.id),
        use_block(c).field("name"@) == JVal::Str(c.name),
        json_parse(c.arguments) is Ok ==> use_block(c).field("input"@) == json_parse(
            c.arguments,
        )->Ok_0,
        "text"@ != "tool_use"@,
{
    reveal_strlit("type");
    reveal_strlit("text");
    reveal_strlit("id");
    reveal_strlit("name");
    reveal_strlit("input");
    reveal_strlit("tool_use");
    assert("type"@[1] != "text"@[1]);
    assert("type"@[0] != "id"@[0]);
    assert("type"@[0] != "name"@[0]);
    assert("type"@[0] != "input"@[0]);
    assert("id"@.len() != "name"@.len());
    assert("id"@.len() != "input"@.len());
    assert("name"@.len() != "input"@.len());
    assert("text"@.len() != "tool_use"@.len());
    let o = JVal::object();
    let kind = JVal::Str("text"@);
    let a = o.with("type"@, kind);
    lemma_get_with(o, "type"@, kind, "type"@);
    lemma_get_with(o, "type"@, kind, "text"@);
    lemma_get_with(a, "text"@, JVal::Str(s), "type"@);
    lemma_get_with(a, "text"@, JVal::Str(s), "text"@);
    let kind = JVal::Str("tool_use"@);
    let a = o.with("type"@, kind);
    let b = a.with("id"@, JVal::Str(c.id));
    let d = b.with("name"@, JVal::Str(c.name));
    let input = use_block(c)->Obj_0.last().1;
    lemma_get_with(o, "type"@, kind, "type"@);
    lemma_get_with(o, "type"@, kind, "id"@);
    lemma_get_with(o, "type"@, kind, "name"@);
    lemma_get_with(o, "type"@, kind, "input"@);
    lemma_get_with(a, "id"@, JVal::Str(c.id), "type"@);
    lemma_get_with(a, "id"@, JVal::Str(c.id), "id"@);
    lemma_get_with(a, "id"@, JVal::Str(c.id), "name"@);
    lemma_get_with(a, "id"@, JVal::Str(c.id), "input"@);
    lemma_get_with(b, "name"@, JVal::Str(c.name), "type"@);
    lemma_get_with(b, "name"@, JVal::Str(c.name), "id"@);
    lemma_get_with(b, "name"@, JVal::Str(c.name), "name"@);
    lemma_get_with(b, "name"@, JVal::Str(c.name), "input"@);
    lemma_get_with(d, "input"@, input, "type"@);
    lemma_get_with(d, "input"@, input, "id"@);
    lemma_get_with(d, "input"@, input, "name"@);
    lemma_get_with(d, "input"@, input, "input"@);
}

/// A whole reply is read block by block: texts are put together, each request for a tool
/// is a call, and other blocks are left out.
pub proof fn a_reply_is_read_block_by_block(blocks: Seq<JVal>, b: JVal)
    ensures
        ({
            let (text, calls) = all_blocks(blocks);
            let (now, all) = all_blocks(blocks.push(b));
            let field = |key: Seq<char>|
                match b.field(key) {
                    JVal::Str(s) => s,
                    _ => Seq::empty(),
                };
            &&& all_blocks(Seq::empty()) == (Seq::<char>::empty(), Seq::<CallView>::empty())
            &&& b.field("type"@) == JVal::Str("text"@) ==> now == text + field("text"@) && all
                == calls
            &&& b.field("type"@) == JVal::Str("tool_use"@) ==> {
                &&& now == text
                &&& all.len() == calls.len() + 1
                &&& all.drop_last() == calls
                &&& all.last().id == field("id"@)
                &&& all.last().name == field("name"@)
                &&& all.last().arguments == json_text(b.field("input"@))
            }
            &&& b.field("type"@) != JVal::Str("text"@) && b.field("type"@) != JVal::Str(
                "tool_use"@,
            ) ==> now == text && all == calls
        }),
{
    reveal_strlit("text");
    reveal_strlit("tool_use");
    assert("text"@.len() != "tool_use"@.len());
    assert(blocks.push(b).drop_last() =~= blocks);
    let (text, calls) = all_blocks(blocks);
    if b.field("type"@) == JVal::Str("tool_use"@) {
        assert(all_blocks(blocks.push(b)).1.drop_last() =~= calls);
    }
}

/// A system message is added to the system text behind those before it, and makes no
/// turn.
pub proof fn a_system_message_is_added_behind(msgs: Seq<MessageView>, m: MessageView)
    requires
        m.role == "system"@,
    ensures
        ({
            let before = anthropic_turns(msgs);
            let after = anthropic_turns(msgs.push(m));
            let text = match m.content {
                Some(s) => s,
                None => Seq::empty(),
            };
            &&& after.1 == before.1
            &&& before.0.len() == 0 ==> after.0 == text
            &&& before.0.len() > 0 ==> after.0 == before.0.push('\n') + text
        }),
{
    assert(msgs.push(m).drop_last() =~= msgs);
    let system = anthropic_turns(msgs).0;
    let text = or_empty(m.content);
    if system.len() == 0 {
        assert(system + text =~= text);
    }
}

/// A message of an unknown role is left out.
pub proof fn an_unknown_role_is_left_out(msgs: Seq<MessageView>, m: MessageView)
    requires
        m.role != "system"@,
        m.role != "user"@,
        m.role != "assistant"@,
        m.role != "tool"@,
    ensures
        anthropic_turns(msgs.push(m)) == anthropic_turns(msgs),
{
    assert(msgs.push(m).drop_last() =~= msgs);
}

/// A result that follows a message of the user joins that turn, behind its text.
pub proof fn a_result_joins_the_user_turn(msgs: Seq<MessageView>, u: MessageView, m: MessageView)
    requires
        u.role == "user"@,
        m.role == "tool"@,
    ensures
        ({
            let before = anthropic_turns(msgs).1;
            let after = anthropic_turns(msgs.push(u).push(m)).1;
            &&& after.len() == before.len() + 1
            &&& after.drop_last() == before
            &&& after.last().user
            &&& after.last().content == ContentView::Blocks(
                text_items(u.content).push(answer_item(m)),
            )
        }),
{
    lemma_roles();
    assert(msgs.push(u).drop_last() =~= msgs);
    assert(msgs.push(u).push(m).drop_last() =~= msgs.push(u));
    lemma_items(or_empty(u.content), arbitrary(), m);
    let before = anthropic_turns(msgs).1;
    let mid = anthropic_turns(msgs.push(u)).1;
    let after = anthropic_turns(msgs.push(u).push(m)).1;
    assert(mid.drop_last() =~= before);
    assert(after.drop_last() =~= before);
    assert(after.last().content->Blocks_0 =~= text_items(u.content).push(answer_item(m)));
}

} // verus!
