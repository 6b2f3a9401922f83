//! What a streamed reply amounts to, said of the whole stream at once.
use vstd::prelude::*;
use crate::json::{json_parse, JVal};
use crate::message::{CallView, UsageStats};
use crate::net::stream::{
    anthropic_event, anthropic_line, anthropic_lines, block_calls, index_of, line_data,
    openai_chunk, openai_line, openai_lines, padded, reply_view, with_fragment, with_fragments,
    AnthropicView, BlockView, OpenAiView,
};

verus! {

/// The document that a line carries: what follows `data: `, where it is one.
pub open spec fn document(line: Seq<char>) -> Option<JVal> {
    if line.len() >= 6 && line.take(6) == "data: "@ {
        match json_parse(line.skip(6)) {
            Ok(v) => Some(v),
            Err(_) => None,
        }
    } else {
        None
    }
}

proof fn lemma_document(line: Seq<char>)
    ensures
        document(line) == (match line_data(line) {
            Some(d) => match json_parse(d) {
                Ok(v) => Some(v),
                Err(_) => None,
            },
            None => None,
        }),
        line == "data: [DONE]"@ <==> line_data(line) == Some("[DONE]"@),
{
    reveal_strlit("data: ");
    reveal_strlit("[DONE]");
    reveal_strlit("data: [DONE]");
    assert("data: "@.len() == 6);
    if line.len() >= 6 {
        assert(line.subrange(0, 6) =~= line.take(6));
        assert(line =~= line.take(6) + line.skip(6));
    }
    assert("data: [DONE]"@.take(6) =~= "data: "@);
    assert("data: [DONE]"@.skip(6) =~= "[DONE]"@);
    assert("data: "@ + "[DONE]"@ =~= "data: [DONE]"@);
}

/// The documents of an OpenAI-style stream: those before the line that ends it.
pub open spec fn chunks(lines: Seq<Seq<char>>) -> Seq<JVal>
    decreases lines.len(),
{
    if lines.len() == 0 {
        Seq::empty()
    } else {
        let before = chunks(lines.drop_last());
        match document(lines.last()) {
            Some(v) if !lines.contains("data: [DONE]"@) => before.push(v),
            _ => before,
        }
    }
}

/// The change that a chunk makes.
pub open spec fn delta(chunk: JVal) -> JVal {
    chunk.field("choices"@).item(0).field("delta"@)
}

/// A string's text; nothing for any other value.
pub open spec fn piece(v: JVal) -> Seq<char> {
    match v {
        JVal::Str(s) => s,
        _ => Seq::empty(),
    }
}

/// The contents of the chunks, one after the other.
pub open spec fn contents(chunks: Seq<JVal>) -> Seq<char>
    decreases chunks.len(),
{
    if chunks.len() == 0 {
        Seq::empty()
    } else {
        contents(chunks.drop_last()) + piece(delta(chunks.last()).field("content"@))
    }
}

/// The fragments of tool calls in the chunks, one after the other.
pub open spec fn fragments(chunks: Seq<JVal>) -> Seq<JVal>
    decreases chunks.len(),
{
    if chunks.len() == 0 {
        Seq::empty()
    } else {
        fragments(chunks.drop_last()) + (match delta(chunks.last()).field("tool_calls"@) {
            JVal::Arr(fs) => fs,
            _ => Seq::empty(),
        })
    }
}

/// The place of the call that a fragment belongs to.
pub open spec fn place(fragment: JVal) -> int {
    match fragment.field("index"@) {
        JVal::UInt(n) => n as int,
        _ => 0,
    }
}

/// What the fragments of the call at a place say of one of its parts, one after the
/// other.
pub open spec fn pieces(fs: Seq<JVal>, i: int, part: Seq<char>) -> Seq<char>
    decreases fs.len(),
{
    if fs.len() == 0 {
        Seq::empty()
    } else {
        pieces(fs.drop_last(), i, part) + (if place(fs.last()) == i {
            piece(fs.last().field("function"@).field(part))
        } else {
            Seq::empty()
        })
    }
}

/// The last identifier that the fragments of the call at a place give.
pub open spec fn last_id(fs: Seq<JVal>, i: int) -> Seq<char>
    decreases fs.len(),
{
    if fs.len() == 0 {
        Seq::empty()
    } else if place(fs.last()) == i && piece(fs.last().field("id"@)).len() > 0 {
        piece(fs.last().field("id"@))
    } else {
        last_id(fs.drop_last(), i)
    }
}

/// How many calls the fragments make: one more than the largest place.
pub open spec fn call_count(fs: Seq<JVal>) -> int
    decreases fs.len(),
{
    if fs.len() == 0 {
        0
    } else if place(fs.last()) >= call_count(fs.drop_last()) {
        place(fs.last()) + 1
    } else {
        call_count(fs.drop_last())
    }
}

/// Every fragment's place can be counted up to.
pub open spec fn places_fit(fs: Seq<JVal>) -> bool {
    forall|k: int| 0 <= k < fs.len() ==> place(#[trigger] fs[k]) <= usize::MAX
}

/// A token count of a document, at most the largest that is kept.
pub open spec fn tokens(v: JVal) -> int {
    match v {
        JVal::UInt(n) => if n <= 0xffff_ffff {
            n as int
        } else {
            0xffff_ffff
        },
        _ => 0,
    }
}

/// The last usage that the chunks report.
pub open spec fn last_usage(chunks: Seq<JVal>) -> Option<(int, int)>
    decreases chunks.len(),
{
    if chunks.len() == 0 {
        None
    } else {
        match chunks.last().field("usage"@) {
            JVal::Obj(f) => {
                let u = chunks.last().field("usage"@);
                Some((tokens(u.field("prompt_tokens"@)), tokens(u.field("completion_tokens"@))))
            },
            _ => last_usage(chunks.drop_last()),
        }
    }
}

pub open spec fn counts(u: Option<UsageStats>) -> Option<(int, int)> {
    match u {
        Some(s) => Some((s.prompt_tokens as int, s.completion_tokens as int)),
        None => None,
    }
}

proof fn lemma_fragments_split(calls: Seq<CallView>, a: Seq<JVal>, b: Seq<JVal>)
    ensures
        with_fragments(calls, a + b) == with_fragments(with_fragments(calls, a), b),
    decreases b.len(),
{
    if b.len() == 0 {
        assert(a + b =~= a);
    } else {
        assert((a + b).drop_last() =~= a + b.drop_last());
        lemma_fragments_split(calls, a, b.drop_last());
    }
}

/// The state of a stream is that of its chunks.
proof fn lemma_openai(lines: Seq<Seq<char>>)
    ensures
        ({
            let end = openai_lines(
                OpenAiView { text: Seq::empty(), calls: Seq::empty(), usage: None, done: false },
                lines,
            ).0;
            let cs = chunks(lines);
            &&& end.done == lines.contains("data: [DONE]"@)
            &&& end.text == contents(cs)
            &&& end.calls == with_fragments(Seq::empty(), fragments(cs))
            &&& counts(end.usage) == last_usage(cs)
        }),
    decreases lines.len(),
{
    let st = OpenAiView { text: Seq::empty(), calls: Seq::empty(), usage: None, done: false };
    if lines.len() > 0 {
        let p = lines.drop_last();
        let line = lines.last();
        let last = "data: [DONE]"@;
        lemma_openai(p);
        lemma_document(line);
        let mid = openai_lines(st, p).0;
        assert(lines.contains(last) <==> p.contains(last) || line == last) by {
            if p.contains(last) {
                let k = choose|k: int| 0 <= k < p.len() && p[k] == last;
                assert(lines[k] == last);
            }
            if line == last {
                assert(lines[lines.len() - 1] == last);
            }
            if lines.contains(last) {
                let k = choose|k: int| 0 <= k < lines.len() && lines[k] == last;
                if k < p.len() {
                    assert(p[k] == last);
                }
            }
        }
        if !lines.contains(last) && document(line) is Some {
            let chunk = document(line)->0;
            let cs = chunks(p);
            assert(cs.push(chunk).drop_last() =~= cs);
            let fs = match delta(chunk).field("tool_calls"@) {
                JVal::Arr(fs) => fs,
                _ => Seq::empty(),
            };
            lemma_fragments_split(Seq::empty(), fragments(cs), fs);
            assert(openai_line(mid, line) == openai_chunk(mid, chunk));
            assert(mid.text + Seq::<char>::empty() =~= mid.text);
        }
    }
}

proof fn lemma_calls(fs: Seq<JVal>)
    requires
        places_fit(fs),
    ensures
        ({
            let calls = with_fragments(Seq::empty(), fs);
            &&& calls.len() == call_count(fs)
            &&& forall|i: int|
                #![trigger calls[i]]
                0 <= i < calls.len() ==> {
                    &&& calls[i].id == last_id(fs, i)
                    &&& calls[i].call_type == "function"@
                    &&& calls[i].name == pieces(fs, i, "name"@)
                    &&& calls[i].arguments == pieces(fs, i, "arguments"@)
                }
            &&& forall|i: int, part: Seq<char>|
                i >= calls.len() ==> #[trigger] pieces(fs, i, part) == Seq::<char>::empty()
            &&& forall|i: int|
                i >= calls.len() ==> #[trigger] last_id(fs, i) == Seq::<char>::empty()
        }),
    decreases fs.len(),
{
    if fs.len() > 0 {
        let p = fs.drop_last();
        let f = fs.last();
        assert(places_fit(p)) by {
            assert forall|k: int| 0 <= k < p.len() implies place(#[trigger] p[k])
                <= usize::MAX by {
                assert(p[k] == fs[k]);
            }
        }
        lemma_calls(p);
        let before = with_fragments(Seq::empty(), p);
        let calls = with_fragments(Seq::empty(), fs);
        assert(f == fs[fs.len() - 1]);
        assert(place(f) <= usize::MAX);
        assert(index_of(f) == place(f));
        let all = padded(before, index_of(f) + 1);
        assert(calls == with_fragment(before, f));
        assert forall|i: int| #![trigger calls[i]] 0 <= i < calls.len() implies {
            &&& calls[i].id == last_id(fs, i)
            &&& calls[i].call_type == "function"@
            &&& calls[i].name == pieces(fs, i, "name"@)
            &&& calls[i].arguments == pieces(fs, i, "arguments"@)
        } by {
            if i < before.len() {
                assert(all[i] == before[i]);
                assert(before[i].id == last_id(p, i));
            } else {
                assert(pieces(p, i, "name"@) == Seq::<char>::empty());
                assert(pieces(p, i, "arguments"@) == Seq::<char>::empty());
                assert(last_id(p, i) == Seq::<char>::empty());
            }
            assert(all[i].name + Seq::<char>::empty() =~= all[i].name);
            assert(all[i].arguments + Seq::<char>::empty() =~= all[i].arguments);
        }
        assert(calls.len() == call_count(fs));
        assert forall|i: int| i >= calls.len() implies #[trigger] last_id(fs, i) == Seq::<
            char,
        >::empty() by {
            assert(last_id(p, i) == Seq::<char>::empty());
        }
        assert forall|i: int, part: Seq<char>| i >= calls.len() implies #[trigger] pieces(
            fs,
            i,
            part,
        ) == Seq::<char>::empty() by {
            assert(pieces(p, i, part) == Seq::<char>::empty());
            assert(Seq::<char>::empty() + Seq::<char>::empty() =~= Seq::<char>::empty());
        }
    }
}

/// The reply of an OpenAI-style stream, whatever way its parts were cut: its content
/// is that of all chunks together; it has a call for every place up to the largest
/// that a fragment names; the name and the arguments of each call are those of its
/// fragments together; its identifier and the usage are the last that came.
pub proof fn an_openai_reply_is_put_together_from_its_chunks(lines: Seq<Seq<char>>)
    requires
        places_fit(fragments(chunks(lines))),
    ensures
        ({
            let (end, told) = openai_lines(
                OpenAiView { text: Seq::empty(), calls: Seq::empty(), usage: None, done: false },
                lines,
            );
            let reply = reply_view(end.text, end.calls, end.usage);
            let text = contents(chunks(lines));
            let fs = fragments(chunks(lines));
            &&& told == text
            &&& reply.role == "assistant"@
            &&& text.len() > 0 ==> reply.content == Some(text)
            &&& text.len() == 0 ==> reply.content is None
            &&& counts(reply.usage) == last_usage(chunks(lines))
            &&& fs.len() == 0 <==> reply.tool_calls is None
            &&& fs.len() > 0 ==> {
                let calls = reply.tool_calls->0;
                &&& calls.len() == call_count(fs)
                &&& forall|i: int|
                    #![trigger calls[i]]
                    0 <= i < calls.len() ==> {
                        &&& calls[i].id == last_id(fs, i)
                        &&& calls[i].call_type == "function"@
                        &&& calls[i].name == pieces(fs, i, "name"@)
                        &&& calls[i].arguments == pieces(fs, i, "arguments"@)
                    }
            }
            &&& reply.tool_call_id is None
            &&& reply.name is None
        }),
{
    let st = OpenAiView { text: Seq::empty(), calls: Seq::empty(), usage: None, done: false };
    lemma_openai(lines);
    lemma_calls(fragments(chunks(lines)));
    crate::net::stream::openai_tokens_add_up_to_the_text(st, lines);
    let told = openai_lines(st, lines).1;
    assert(Seq::<char>::empty() + told =~= told);
    lemma_count(fragments(chunks(lines)));
}

proof fn lemma_count(fs: Seq<JVal>)
    ensures
        call_count(fs) >= 0,
        fs.len() > 0 ==> call_count(fs) > 0,
    decreases fs.len(),
{
    if fs.len() > 0 {
        lemma_count(fs.drop_last());
    }
}

/// The document says that it is of a kind.
pub open spec fn is_kind(v: JVal, kind: Seq<char>) -> bool {
    v.field("type"@) == JVal::Str(kind)
}

/// Some of the events ends the stream.
pub open spec fn stopped(evs: Seq<JVal>) -> bool {
    exists|k: int| 0 <= k < evs.len() && is_kind(#[trigger] evs[k], "message_stop"@)
}

/// The documents of an Anthropic stream, up to the one that ends it.
pub open spec fn events(lines: Seq<Seq<char>>) -> Seq<JVal>
    decreases lines.len(),
{
    if lines.len() == 0 {
        Seq::empty()
    } else {
        let before = events(lines.drop_last());
        match document(lines.last()) {
            Some(v) if !stopped(before) => before.push(v),
            _ => before,
        }
    }
}

/// The event is a delta of a kind.
pub open spec fn is_delta(ev: JVal, kind: Seq<char>) -> bool {
    is_kind(ev, "content_block_delta"@) && is_kind(ev.field("delta"@), kind)
}

/// The texts of the events, one after the other.
pub open spec fn deltas(evs: Seq<JVal>) -> Seq<char>
    decreases evs.len(),
{
    if evs.len() == 0 {
        Seq::empty()
    } else {
        deltas(evs.drop_last()) + (if is_delta(evs.last(), "text_delta"@) {
            piece(evs.last().field("delta"@).field("text"@))
        } else {
            Seq::empty()
        })
    }
}

/// The block that was last begun at a place, with the parts of its input that came
/// since, one after the other.
pub open spec fn block_at(evs: Seq<JVal>, i: int) -> Option<BlockView>
    decreases evs.len(),
{
    if evs.len() == 0 {
        None
    } else {
        let ev = evs.last();
        let before = block_at(evs.drop_last(), i);
        if place(ev) != i {
            before
        } else if is_kind(ev, "content_block_start"@) {
            let b = ev.field("content_block"@);
            Some(
                BlockView {
                    kind: piece(b.field("type"@)),
                    id: piece(b.field("id"@)),
                    name: piece(b.field("name"@)),
                    input: Seq::empty(),
                },
            )
        } else if is_delta(ev, "input_json_delta"@) && before is Some {
            let b = before->0;
            Some(
                BlockView {
                    input: b.input + piece(ev.field("delta"@).field("partial_json"@)),
                    ..b
                },
            )
        } else {
            before
        }
    }
}

/// How many places blocks were begun at: one more than the largest.
pub open spec fn block_count(evs: Seq<JVal>) -> int
    decreases evs.len(),
{
    if evs.len() == 0 {
        0
    } else if is_kind(evs.last(), "content_block_start"@) && place(evs.last()) >= block_count(
        evs.drop_last(),
    ) {
        place(evs.last()) + 1
    } else {
        block_count(evs.drop_last())
    }
}

/// The calls that the blocks at the first `n` places ask for, in their order.
pub open spec fn calls_at(evs: Seq<JVal>, n: int) -> Seq<CallView>
    decreases n,
{
    if n <= 0 {
        Seq::empty()
    } else {
        match block_at(evs, n - 1) {
            Some(b) if b.kind == "tool_use"@ => calls_at(evs, n - 1).push(
                CallView {
                    id: b.id,
                    call_type: "function"@,
                    name: b.name,
                    arguments: if b.input == Seq::<char>::empty() {
                        "{}"@
                    } else {
                        b.input
                    },
                },
            ),
            _ => calls_at(evs, n - 1),
        }
    }
}

/// The usage report of an event.
pub open spec fn usage_report(ev: JVal) -> JVal {
    if is_kind(ev, "message_start"@) {
        ev.field("message"@).field("usage"@)
    } else if is_kind(ev, "message_delta"@) {
        ev.field("usage"@)
    } else {
        JVal::Null
    }
}

/// Some event reports usage.
pub open spec fn usage_came(evs: Seq<JVal>) -> bool {
    exists|k: int| 0 <= k < evs.len() && usage_report(#[trigger] evs[k]) is Obj
}

/// The last count of a name that the events report; none is zero.
pub open spec fn last_count(evs: Seq<JVal>, name: Seq<char>) -> int
    decreases evs.len(),
{
    if evs.len() == 0 {
        0
    } else {
        match usage_report(evs.last()).field(name) {
            JVal::UInt(n) => tokens(JVal::UInt(n)),
            _ => last_count(evs.drop_last(), name),
        }
    }
}

proof fn lemma_kinds()
    ensures
        "content_block_start"@.len() == 19,
        "content_block_delta"@.len() == 19,
        "content_block_start"@[14] == 's',
        "content_block_delta"@[14] == 'd',
        "message_start"@.len() == 13,
        "message_delta"@.len() == 13,
        "message_start"@[8] == 's',
        "message_delta"@[8] == 'd',
        "message_stop"@.len() == 12,
        "text_delta"@.len() == 10,
        "input_json_delta"@.len() == 16,
        "tool_use"@.len() == 8,
{
    reveal_strlit("content_block_start");
    reveal_strlit("content_block_delta");
    reveal_strlit("message_start");
    reveal_strlit("message_delta");
    reveal_strlit("message_stop");
    reveal_strlit("text_delta");
    reveal_strlit("input_json_delta");
    reveal_strlit("tool_use");
}

spec fn same_blocks(blocks: Seq<BlockView>, evs: Seq<JVal>) -> bool {
    &&& blocks.len() == block_count(evs)
    &&& forall|i: int|
        #![trigger blocks[i]]
        0 <= i < blocks.len() ==> match block_at(evs, i) {
            Some(b) => blocks[i] == b,
            None => blocks[i].kind == Seq::<char>::empty(),
        }
    &&& forall|i: int| i >= blocks.len() ==> #[trigger] block_at(evs, i) is None
}

proof fn lemma_event(st: AnthropicView, evs: Seq<JVal>, ev: JVal)
    requires
        place(ev) <= usize::MAX,
        same_blocks(st.blocks, evs),
        st.text == deltas(evs),
        st.usage is Some <==> usage_came(evs),
        st.usage is Some ==> st.usage->0.prompt_tokens == last_count(evs, "input_tokens"@)
            && st.usage->0.completion_tokens == last_count(evs, "output_tokens"@),
        st.usage is None ==> last_count(evs, "input_tokens"@) == 0 && last_count(
            evs,
            "output_tokens"@,
        ) == 0,
        !st.done,
    ensures
        ({
            let end = anthropic_event(st, ev).0;
            let all = evs.push(ev);
            &&& same_blocks(end.blocks, all)
            &&& end.text == deltas(all)
            &&& end.usage is Some <==> usage_came(all)
            &&& end.usage is Some ==> end.usage->0.prompt_tokens == last_count(
                all,
                "input_tokens"@,
            ) && end.usage->0.completion_tokens == last_count(all, "output_tokens"@)
            &&& end.usage is None ==> last_count(all, "input_tokens"@) == 0 && last_count(
                all,
                "output_tokens"@,
            ) == 0
            &&& end.done <==> is_kind(ev, "message_stop"@)
        }),
{
    lemma_kinds();
    let end = anthropic_event(st, ev).0;
    let all = evs.push(ev);
    assert(all.drop_last() =~= evs);
    assert(index_of(ev) == place(ev));
    assert(st.text + Seq::<char>::empty() =~= st.text);
    assert(usage_came(all) <==> usage_came(evs) || usage_report(ev) is Obj) by {
        if usage_came(evs) {
            let k = choose|k: int| 0 <= k < evs.len() && usage_report(#[trigger] evs[k]) is Obj;
            assert(all[k] == evs[k]);
        }
        if usage_report(ev) is Obj {
            assert(all[evs.len() as int] == ev);
        }
        if usage_came(all) {
            let k = choose|k: int| 0 <= k < all.len() && usage_report(#[trigger] all[k]) is Obj;
            if k < evs.len() {
                assert(all[k] == evs[k]);
            }
        }
    }
    assert(end.blocks.len() == block_count(all));
    assert forall|i: int| #![trigger end.blocks[i]] 0 <= i < end.blocks.len() implies match block_at(
        all,
        i,
    ) {
        Some(b) => end.blocks[i] == b,
        None => end.blocks[i].kind == Seq::<char>::empty(),
    } by {
        if i < st.blocks.len() {
            let old = st.blocks[i];
            assert(old.input + Seq::<char>::empty() =~= old.input);
        } else {
            assert(block_at(evs, i) is None);
        }
    }
    assert forall|i: int| i >= end.blocks.len() implies #[trigger] block_at(all, i) is None by {
        assert(block_at(evs, i) is None);
    }
}

proof fn lemma_calls_at(blocks: Seq<BlockView>, evs: Seq<JVal>, n: int)
    requires
        same_blocks(blocks, evs),
        0 <= n <= blocks.len(),
    ensures
        block_calls(blocks.take(n)) == calls_at(evs, n),
    decreases n,
{
    lemma_kinds();
    if n > 0 {
        lemma_calls_at(blocks, evs, n - 1);
        assert(blocks.take(n).drop_last() =~= blocks.take(n - 1));
        let b = blocks[n - 1];
        assert(b.input.len() == 0 <==> b.input =~= Seq::<char>::empty());
    }
}

proof fn lemma_anthropic(lines: Seq<Seq<char>>)
    requires
        places_fit(events(lines)),
    ensures
        ({
            let end = anthropic_lines(
                AnthropicView { text: Seq::empty(), blocks: Seq::empty(), usage: None, done: false },
                lines,
            ).0;
            let evs = events(lines);
            &&& same_blocks(end.blocks, evs)
            &&& end.text == deltas(evs)
            &&& end.usage is Some <==> usage_came(evs)
            &&& end.usage is Some ==> end.usage->0.prompt_tokens == last_count(
                evs,
                "input_tokens"@,
            ) && end.usage->0.completion_tokens == last_count(evs, "output_tokens"@)
            &&& end.usage is None ==> last_count(evs, "input_tokens"@) == 0 && last_count(
                evs,
                "output_tokens"@,
            ) == 0
            &&& end.done <==> stopped(evs)
        }),
    decreases lines.len(),
{
    let st = AnthropicView { text: Seq::empty(), blocks: Seq::empty(), usage: None, done: false };
    if lines.len() > 0 {
        let p = lines.drop_last();
        let line = lines.last();
        let before = events(p);
        let evs = events(lines);
        assert(places_fit(before)) by {
            assert forall|k: int| 0 <= k < before.len() implies place(#[trigger] before[k])
                <= usize::MAX by {
                assert(evs[k] == before[k]);
            }
        }
        lemma_anthropic(p);
        lemma_document(line);
        let mid = anthropic_lines(st, p).0;
        if !stopped(before) && document(line) is Some {
            let ev = document(line)->0;
            assert(evs == before.push(ev));
            assert(evs[before.len() as int] == ev);
            lemma_event(mid, before, ev);
            assert(anthropic_line(mid, line) == anthropic_event(mid, ev));
            assert(stopped(evs) <==> is_kind(ev, "message_stop"@)) by {
                if stopped(evs) {
                    let k = choose|k: int|
                        0 <= k < evs.len() && is_kind(#[trigger] evs[k], "message_stop"@);
                    if k < before.len() {
                        assert(before[k] == evs[k]);
                    }
                }
            }
        }
    }
}

/// The reply of an Anthropic stream, whatever way its parts were cut: its content is
/// that of all text deltas together; its calls are those of the blocks that ask for a
/// tool, in the order of their places, the arguments of each being the parts of its
/// input together; each count of the usage is the last that came.
pub proof fn an_anthropic_reply_is_put_together_from_its_events(lines: Seq<Seq<char>>)
    requires
        places_fit(events(lines)),
    ensures
        ({
            let (end, told) = anthropic_lines(
                AnthropicView { text: Seq::empty(), blocks: Seq::empty(), usage: None, done: false },
                lines,
            );
            let reply = reply_view(end.text, block_calls(end.blocks), end.usage);
            let evs = events(lines);
            let text = deltas(evs);
            let calls = calls_at(evs, block_count(evs));
            &&& told == text
            &&& reply.role == "assistant"@
            &&& text.len() > 0 ==> reply.content == Some(text)
            &&& text.len() == 0 ==> reply.content is None
            &&& calls.len() > 0 ==> reply.tool_calls == Some(calls)
            &&& calls.len() == 0 ==> reply.tool_calls is None
            &&& usage_came(evs) ==> counts(reply.usage) == Some(
                (last_count(evs, "input_tokens"@), last_count(evs, "output_tokens"@)),
            )
            &&& !usage_came(evs) ==> reply.usage is None
        }),
{
    let st = AnthropicView { text: Seq::empty(), blocks: Seq::empty(), usage: None, done: false };
    lemma_anthropic(lines);
    let (end, told) = anthropic_lines(st, lines);
    lemma_calls_at(end.blocks, events(lines), end.blocks.len() as int);
    assert(end.blocks.take(end.blocks.len() as int) =~= end.blocks);
    crate::net::stream::anthropic_tokens_add_up_to_the_text(st, lines);
    assert(Seq::<char>::empty() + told =~= told);
}

} // verus!
