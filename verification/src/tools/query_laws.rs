//! Which arguments the tools that look things up accept, and what becomes of them.
use vstd::prelude::*;
use crate::decimal::dec;
use crate::json::JVal;
use crate::paths::joined;
use crate::search::{join, texts, trim, words};
use crate::tools::computer::{navigation_keys, typing_apps, SafetyMode, SafetyPolicy};
use crate::tools::dispatch::dispatch_plan;
use crate::tools::memory::{ingest_plan, recall_plan};
use crate::tools::retrieval::{
    embed_inputs, entries_shown, rank_plan, ranking, texts_json, RankView, Scored,
};
use crate::tools::search::{
    encoded, encoded_byte, result_entry, results_text, search_plan, snippet, without_slashes,
    SxResult,
};
use crate::tools::toolset::{
    is_tool, names_that, needs_bus, same_policy, stands_alone, SystemTool, SystemToolsConfig,
};
use crate::tools::vision::{answer_of, base64, cut, digit64, parts_text, question_of, request_json};

verus! {

/// A number that was asked for, between two bounds; a usual one where none was.
pub open spec fn bounded(asked: JVal, usual: int, least: int, most: int) -> int {
    let n = match asked {
        JVal::UInt(n) => n as int,
        _ => usual,
    };
    if n < least {
        least
    } else if n > most {
        most
    } else {
        n
    }
}

/// A field holds a text that is more than white space.
pub open spec fn tells(args: JVal, key: Seq<char>) -> bool {
    args.field(key) is Str && trim(args.field(key)->Str_0).len() > 0
}

/// Memories are recalled for every query that says something, at most twenty of them
/// and five where no number is given.
pub proof fn recalling_takes_a_query(args: JVal)
    ensures
        recall_plan(args) is Ok <==> tells(args, "query"@),
        recall_plan(args) is Ok ==> recall_plan(args)->Ok_0 == seq![
            "recall"@,
            "--limit"@,
            dec(bounded(args.field("limit"@), 5, 1, 20) as nat),
            trim(args.field("query"@)->Str_0),
        ],
{
}

/// A memory is taken in when it says something and is of a known kind and scope; it is
/// taken in as it was given.
pub proof fn memories_are_of_a_known_kind_and_scope(args: JVal)
    ensures
        ingest_plan(args) is Ok <==> {
            &&& tells(args, "content"@)
            &&& args.field("kind"@) is Str
            &&& args.field("scope"@) is Str
            &&& {
                let kind = args.field("kind"@)->Str_0;
                ||| kind == "decision"@
                ||| kind == "fact"@
                ||| kind == "error"@
                ||| kind == "correction"@
                ||| kind == "pattern"@
                ||| kind == "insight"@
            }
            &&& {
                let scope = args.field("scope"@)->Str_0;
                scope == "project"@ || scope == "global"@
            }
        },
        ingest_plan(args) is Ok ==> ingest_plan(args)->Ok_0 == (
            args.field("content"@)->Str_0,
            args.field("kind"@)->Str_0,
            args.field("scope"@)->Str_0,
        ),
{
    let kinds = crate::tools::memory::allowed_kinds();
    let scopes = crate::tools::memory::allowed_scopes();
    assert(kinds[0] == "decision"@ && kinds[1] == "fact"@ && kinds[2] == "error"@ && kinds[3]
        == "correction"@ && kinds[4] == "pattern"@ && kinds[5] == "insight"@);
    assert(scopes[0] == "project"@ && scopes[1] == "global"@);
}

/// Texts are ranked when the query says something and there are between one and twenty
/// of them; all of them go in, in order, and of the best as many come out as were asked
/// for, at least one and at most all.
pub proof fn between_one_and_twenty_texts_are_ranked(
    args: JVal,
    key: Seq<char>,
    word: Seq<char>,
    usual: usize,
)
    ensures
        rank_plan(args, key, word, usual) is Ok <==> {
            &&& tells(args, "query"@)
            &&& args.field(key) is Arr
            &&& 1 <= args.field(key)->Arr_0.len() <= 20
            &&& forall|i: int|
                0 <= i < args.field(key)->Arr_0.len() ==> #[trigger] args.field(key)->Arr_0[i] is Str
        },
        rank_plan(args, key, word, usual) is Ok ==> {
            let p = rank_plan(args, key, word, usual)->Ok_0;
            let items = args.field(key)->Arr_0;
            &&& p.query == trim(args.field("query"@)->Str_0)
            &&& p.passages.len() == items.len()
            &&& forall|i: int|
                0 <= i < items.len() ==> #[trigger] items[i] == JVal::Str(p.passages[i])
            &&& args.field("top_k"@).as_uint() is None || args.field("top_k"@).as_uint()->0
                <= usize::MAX ==> p.top_k == bounded(
                args.field("top_k"@),
                usual as int,
                1,
                items.len() as int,
            )
        },
{
    if args.field(key) is Arr {
        let items = args.field(key)->Arr_0;
        if forall|i: int| 0 <= i < items.len() ==> #[trigger] items[i] is Str {
            assert(crate::tools::retrieval::all_text(items));
        }
        if crate::tools::retrieval::all_text(items) {
            assert forall|i: int| 0 <= i < items.len() implies #[trigger] items[i] is Str by {
                assert(items[i].as_text() is Some);
            }
        }
    }
}

/// The query goes to be embedded first, and then every passage in order, each with the
/// mark of its part.
pub proof fn the_query_is_embedded_with_the_passages(p: RankView, i: int)
    requires
        0 <= i < p.passages.len(),
    ensures
        embed_inputs(p).len() == p.passages.len() + 1,
        embed_inputs(p)[0] == "search_query: "@ + p.query,
        embed_inputs(p)[i + 1] == "search_document: "@ + p.passages[i],
        texts_json(p.passages).item(i) == JVal::Str(p.passages[i]),
{
}

/// A ranking is its heading and then one entry for each of the best, numbered from one,
/// with its score and its passage.
pub proof fn a_ranking_lists_the_best_in_order(
    heading: Seq<char>,
    order: Seq<Scored>,
    passages: Seq<Seq<char>>,
    k: int,
    top_k: usize,
)
    requires
        0 <= k < order.len(),
    ensures
        ranking(heading, order, passages, 0) == heading,
        ranking(heading, order, passages, k + 1) == ranking(heading, order, passages, k) + ("\n"@
            + dec((k + 1) as nat) + ". [score: "@ + order[k].score@ + ("] "@ + (if order[k].index
            < passages.len() {
            passages[order[k].index as int]
        } else {
            "(index out of range)"@
        }) + "\n"@)),
        order.len() <= top_k ==> entries_shown(order.len(), top_k) == order.len(),
        order.len() > top_k ==> entries_shown(order.len(), top_k) == top_k,
{
}

/// A search is made for every query that says something, with at most ten results and
/// five where no number is given.
pub proof fn searching_takes_a_query(args: JVal)
    ensures
        search_plan(args) is Ok <==> tells(args, "query"@),
        search_plan(args) is Ok ==> search_plan(args)->Ok_0.0 == trim(args.field("query"@)->Str_0),
        search_plan(args) is Ok && (args.field("max_results"@).as_uint() is None || args.field(
            "max_results"@,
        ).as_uint()->0 <= usize::MAX) ==> search_plan(args)->Ok_0.1 == bounded(
            args.field("max_results"@),
            5,
            1,
            10,
        ),
{
}

/// A query is encoded byte by byte: unreserved characters stand for themselves, a space
/// is a plus, and every other byte is a percent sign and two digits.
pub proof fn queries_are_encoded_byte_by_byte(a: Seq<u8>, b: Seq<u8>, c: u8)
    ensures
        encoded(a + b) == encoded(a) + encoded(b),
        encoded(seq![c]) == (if ('a' as u8 <= c <= 'z' as u8) || ('A' as u8 <= c <= 'Z' as u8) || (
        '0' as u8 <= c <= '9' as u8) || c == '-' as u8 || c == '_' as u8 || c == '.' as u8 || c
            == '~' as u8 {
            seq![c as char]
        } else if c == ' ' as u8 {
            seq!['+']
        } else {
            seq![
                '%',
                "0123456789ABCDEF"@[(c / 16) as int],
                "0123456789ABCDEF"@[(c % 16) as int],
            ]
        }),
    decreases b.len(),
{
    lemma_encoded_parts(a, b);
    reveal_strlit("0123456789ABCDEF");
    assert(seq![c].drop_last() =~= Seq::<u8>::empty());
    assert(encoded(seq![c].drop_last()) =~= Seq::<char>::empty());
    assert(encoded(seq![c]) =~= encoded_byte(c));
    lemma_hex(c / 16);
    lemma_hex(c % 16);
}

proof fn lemma_hex(d: u8)
    requires
        d < 16,
    ensures
        crate::tools::search::hex_upper(d) == "0123456789ABCDEF"@[d as int],
{
    reveal_strlit("0123456789ABCDEF");
    let h = "0123456789ABCDEF"@;
    assert(h[0] == '0' && h[1] == '1' && h[2] == '2' && h[3] == '3' && h[4] == '4' && h[5] == '5'
        && h[6] == '6' && h[7] == '7' && h[8] == '8' && h[9] == '9');
    assert(h[10] == 'A' && h[11] == 'B' && h[12] == 'C' && h[13] == 'D' && h[14] == 'E' && h[15]
        == 'F');
}

proof fn lemma_encoded_parts(a: Seq<u8>, b: Seq<u8>)
    ensures
        encoded(a + b) == encoded(a) + encoded(b),
    decreases b.len(),
{
    if b.len() == 0 {
        assert(a + b =~= a);
        assert(encoded(a) + encoded(b) =~= encoded(a));
    } else {
        lemma_encoded_parts(a, b.drop_last());
        assert((a + b).drop_last() =~= a + b.drop_last());
        assert(encoded(a + b) =~= encoded(a) + encoded(b));
    }
}

/// Slashes at the end of an address are left out, and nothing else is.
pub proof fn slashes_at_the_end_are_left_out(s: Seq<char>)
    ensures
        without_slashes(s.push('/')) == without_slashes(s),
        s.len() == 0 || s.last() != '/' ==> without_slashes(s) == s,
{
    assert(s.push('/').drop_last() =~= s);
}

/// A snippet is the text on one line, cut off with a mark where it is too long.
pub proof fn a_snippet_is_one_short_line(s: Seq<char>, cap: nat)
    ensures
        join(words(s), " "@).len() <= cap ==> snippet(s, cap) == join(words(s), " "@),
        join(words(s), " "@).len() > cap ==> {
            &&& snippet(s, cap).len() == cap + 1
            &&& snippet(s, cap).last() == '…'
            &&& snippet(s, cap).drop_last() == join(words(s), " "@).take(cap as int)
        },
{
    let line = join(words(s), " "@);
    if line.len() > cap {
        assert(snippet(s, cap).drop_last() =~= line.take(cap as int));
    }
}

/// Results are listed one after the other, numbered from one, up to the number that was
/// asked for; without any the answer says so.
pub proof fn results_are_listed_in_order(results: Seq<SxResult>, cap: nat, i: int)
    requires
        0 < cap,
        0 <= i < results.len(),
    ensures
        results_text(Seq::empty(), cap) == "No results."@,
        ({
            let n = if results.len() <= cap {
                results.len()
            } else {
                cap
            };
            results_text(results, cap) == join(
                Seq::new(n, |k: int| result_entry(k as nat, results[k])),
                "\n"@,
            )
        }),
        result_entry(i as nat, results[i]) == dec((i + 1) as nat) + ". "@ + (
        if results[i].title@.len() == 0 {
            "(untitled)"@
        } else {
            results[i].title@
        }) + " — "@ + results[i].url@ + ("\n   "@ + snippet(results[i].content@, 140)),
{
    let n = if results.len() <= cap {
        results.len()
    } else {
        cap
    };
    assert(Seq::new(n, |k: int| result_entry(k as nat, results[k])) =~= Seq::new(
        crate::tools::search::shown(results.len(), cap),
        |i: int| result_entry(i as nat, results[i]),
    ));
}

/// A task is handed over when it says something and the agent's name is made of
/// letters, digits, dashes and underscores. The task goes out as it was given, with a
/// time limit between a tenth of a second and five minutes, half a minute where none is
/// given.
pub proof fn a_task_goes_to_a_plainly_named_agent(args: JVal)
    ensures
        dispatch_plan(args) is Ok <==> {
            &&& tells(args, "agent_name"@)
            &&& tells(args, "task"@)
            &&& forall|i: int|
                0 <= i < trim(args.field("agent_name"@)->Str_0).len() ==> {
                    let c = #[trigger] trim(args.field("agent_name"@)->Str_0)[i];
                    ('A' <= c <= 'Z') || ('a' <= c <= 'z') || ('0' <= c <= '9') || c == '-' || c
                        == '_'
                }
        },
        dispatch_plan(args) is Ok ==> {
            let p = dispatch_plan(args)->Ok_0;
            &&& p.agent_name == trim(args.field("agent_name"@)->Str_0)
            &&& p.task == args.field("task"@)->Str_0
            &&& p.timeout_ms == bounded(args.field("timeout_ms"@), 30_000, 100, 300_000)
        },
{
    if args.field("agent_name"@) is Str {
        let name = trim(args.field("agent_name"@)->Str_0);
        if forall|i: int|
            0 <= i < name.len() ==> {
                let c = #[trigger] name[i];
                ('A' <= c <= 'Z') || ('a' <= c <= 'z') || ('0' <= c <= '9') || c == '-' || c == '_'
            } {
            assert(crate::tools::dispatch::name_ok(name));
        }
    }
}

/// The tools that act on the desktop or on other agents take a bus; those that only look
/// or open something do not, and no tool is of both sorts.
pub proof fn acting_takes_a_bus(name: Seq<char>)
    ensures
        needs_bus(name) <==> name == "dispatch_agent"@ || name == "click"@ || name == "type_text"@
            || name == "key_combo"@ || name == "scroll"@ || name == "focus_window"@ || name
            == "look_at_screen"@,
        stands_alone(name) <==> name == "open_app"@ || name == "open_url"@ || name
            == "notification"@ || name == "current_window"@ || name == "screenshot"@ || name
            == "clipboard_get"@ || name == "web_search"@ || name == "memctl_recall"@ || name
            == "memctl_ingest"@ || name == "get_mouse"@,
{
}

/// The names that give tools, and those that do not, are told apart in the order in
/// which they were given, and none is lost.
pub proof fn names_are_told_apart(names: Seq<Seq<char>>, has_bus: bool)
    ensures
        names_that(names, has_bus, true) == names.filter(
            |n: Seq<char>| stands_alone(n) || (has_bus && needs_bus(n)),
        ),
        names_that(names, has_bus, false) == names.filter(
            |n: Seq<char>| !(stands_alone(n) || (has_bus && needs_bus(n))),
        ),
    decreases names.len(),
{
    let gives = |n: Seq<char>| stands_alone(n) || (has_bus && needs_bus(n));
    let lacks = |n: Seq<char>| !(stands_alone(n) || (has_bus && needs_bus(n)));
    if names.len() > 0 {
        let p = names.drop_last();
        names_are_told_apart(p, has_bus);
        assert(names =~= p.push(names.last()));
        p.lemma_filter_push(names.last(), gives);
        p.lemma_filter_push(names.last(), lacks);
    } else {
        assert(names.filter(gives) =~= Seq::empty());
        assert(names.filter(lacks) =~= Seq::empty());
    }
}

/// A question that says something is asked as it is, without the white space around it;
/// else the usual one is.
pub proof fn an_empty_question_becomes_the_usual_one(args: JVal)
    ensures
        tells(args, "question"@) ==> question_of(args) == trim(args.field("question"@)->Str_0),
        !tells(args, "question"@) ==> question_of(args)
            == "Describe in one sentence what's on the screen, focusing on the active window."@,
{
}

/// An answer keeps within its cap; one that is cut ends with a mark and is as long as it
/// may be.
pub proof fn a_long_answer_is_cut(s: Seq<char>, cap: nat)
    requires
        cap > 0,
    ensures
        s.len() <= cap ==> cut(s, cap) == s,
        s.len() > cap ==> {
            &&& cut(s, cap).len() == cap
            &&& cut(s, cap).last() == '…'
            &&& cut(s, cap).drop_last() == s.take(cap - 1)
        },
{
    if s.len() > cap {
        assert(cut(s, cap).drop_last() =~= s.take(cap - 1));
    }
}

/// The texts among some parts.
pub open spec fn part_texts(parts: Seq<JVal>) -> Seq<Seq<char>> {
    parts.filter(|p: JVal| p.field("text"@) is Str).map_values(
        |p: JVal| p.field("text"@)->Str_0,
    )
}

/// The texts of an answer in parts are put together, each on a line of its own.
pub proof fn parts_make_up_the_answer(parts: Seq<JVal>)
    requires
        forall|i: int| 0 <= i < part_texts(parts).len() ==> (#[trigger] part_texts(parts)[i]).len()
            > 0,
    ensures
        parts_text(parts) == join(part_texts(parts), seq!['\n']),
        part_texts(parts).len() > 0 ==> parts_text(parts).len() > 0,
    decreases parts.len(),
{
    let has_text = |p: JVal| p.field("text"@) is Str;
    let all = part_texts(parts);
    if parts.len() == 0 {
        assert(all =~= Seq::empty());
    } else {
        let p = parts.drop_last();
        let last = parts.last();
        assert(parts =~= p.push(last));
        p.lemma_filter_push(last, has_text);
        let old = part_texts(p);
        if last.field("text"@) is Str {
            let t = last.field("text"@)->Str_0;
            assert(all =~= old.push(t));
            assert(all[old.len() as int] == t);
            assert forall|i: int| 0 <= i < old.len() implies (#[trigger] old[i]).len() > 0 by {
                assert(all[i] == old[i]);
            }
            parts_make_up_the_answer(p);
            assert(all.drop_last() =~= old);
            let s = parts_text(p);
            if old.len() == 0 {
                assert(s + t =~= t);
            } else {
                assert(s.push('\n') + t =~= s + seq!['\n'] + t);
            }
        } else {
            assert(all =~= old);
            parts_make_up_the_answer(p);
        }
    }
}

/// An answer is the content of the first choice: its text, or the texts of its parts;
/// a reply without one is an error.
pub proof fn the_first_choice_answers(body: JVal)
    ensures
        ({
            let content = body.field("choices"@).item(0).field("message"@).field("content"@);
            &&& content is Str ==> answer_of(body) == Ok::<Seq<char>, Seq<char>>(
                trim(content->Str_0),
            )
            &&& content is Arr && parts_text(content->Arr_0).len() > 0 ==> answer_of(body) == Ok::<
                Seq<char>,
                Seq<char>,
            >(trim(parts_text(content->Arr_0)))
            &&& content is Arr && parts_text(content->Arr_0).len() == 0 ==> answer_of(body) is Err
            &&& !(content is Str) && !(content is Arr) ==> answer_of(body) is Err
        }),
{
}

/// The digits of an encoded picture are those of the standard alphabet.
pub proof fn pictures_use_the_standard_alphabet(n: u8)
    requires
        n < 64,
    ensures
        digit64(n) == "ABCDEFGHIJKLMNOPQRSTUVWXYZabcdefghijklmnopqrstuvwxyz0123456789+/"@[n as int],
{
    lemma_alphabet(n as int);
}

proof fn lemma_alphabet(k: int)
    requires
        0 <= k < 64,
    ensures
        digit64(k as u8) == "ABCDEFGHIJKLMNOPQRSTUVWXYZabcdefghijklmnopqrstuvwxyz0123456789+/"@[k],
{
    reveal_strlit("ABCDEFGHIJKLMNOPQRSTUVWXYZabcdefghijklmnopqrstuvwxyz0123456789+/");
    let a = "ABCDEFGHIJKLMNOPQRSTUVWXYZabcdefghijklmnopqrstuvwxyz0123456789+/"@;
    if k < 8 {
        assert(a[0] == 'A' && a[1] == 'B' && a[2] == 'C' && a[3] == 'D' && a[4] == 'E' && a[5]
            == 'F' && a[6] == 'G' && a[7] == 'H');
    } else if k < 16 {
        assert(a[8] == 'I' && a[9] == 'J' && a[10] == 'K' && a[11] == 'L' && a[12] == 'M' && a[13]
            == 'N' && a[14] == 'O' && a[15] == 'P');
    } else if k < 26 {
        assert(a[16] == 'Q' && a[17] == 'R' && a[18] == 'S' && a[19] == 'T' && a[20] == 'U'
            && a[21] == 'V' && a[22] == 'W' && a[23] == 'X' && a[24] == 'Y' && a[25] == 'Z');
    } else if k < 34 {
        assert(a[26] == 'a' && a[27] == 'b' && a[28] == 'c' && a[29] == 'd' && a[30] == 'e'
            && a[31] == 'f' && a[32] == 'g' && a[33] == 'h');
    } else if k < 42 {
        assert(a[34] == 'i' && a[35] == 'j' && a[36] == 'k' && a[37] == 'l' && a[38] == 'm'
            && a[39] == 'n' && a[40] == 'o' && a[41] == 'p');
    } else if k < 52 {
        assert(a[42] == 'q' && a[43] == 'r' && a[44] == 's' && a[45] == 't' && a[46] == 'u'
            && a[47] == 'v' && a[48] == 'w' && a[49] == 'x' && a[50] == 'y' && a[51] == 'z');
    } else if k < 62 {
        assert(a[52] == '0' && a[53] == '1' && a[54] == '2' && a[55] == '3' && a[56] == '4'
            && a[57] == '5' && a[58] == '6' && a[59] == '7' && a[60] == '8' && a[61] == '9');
    } else {
        assert(a[62] == '+' && a[63] == '/');
    }
}

/// Three bytes make four digits, six bits each, and what follows them is encoded on its
/// own; one or two bytes at the end are filled up with signs that stand for nothing.
pub proof fn three_bytes_make_four_digits(a: u8, b: u8, c: u8, rest: Seq<u8>)
    ensures
        exists|d: u8, e: u8, f: u8, g: u8|
            d < 64 && e < 64 && f < 64 && g < 64 && d * 262144 + e * 4096 + f * 64 + g == a * 65536
                + b * 256 + c && #[trigger] seq![digit64(d), digit64(e), digit64(f), digit64(g)]
                + base64(rest) == base64(seq![a, b, c] + rest),
        base64(Seq::<u8>::empty()) == Seq::<char>::empty(),
        base64(seq![a]) == base64(seq![a, 0, 0]).take(2).push('=').push('='),
        base64(seq![a, b]) == base64(seq![a, b, 0]).take(3).push('='),
{
    lemma_four_digits(a, b, c, rest);
    lemma_last_digits(a, b);
}

proof fn lemma_four_digits(a: u8, b: u8, c: u8, rest: Seq<u8>)
    ensures
        exists|d: u8, e: u8, f: u8, g: u8|
            d < 64 && e < 64 && f < 64 && g < 64 && d * 262144 + e * 4096 + f * 64 + g == a * 65536
                + b * 256 + c && #[trigger] seq![digit64(d), digit64(e), digit64(f), digit64(g)]
                + base64(rest) == base64(seq![a, b, c] + rest),
{
    let s = seq![a, b, c] + rest;
    assert(s.skip(3) =~= rest);
    let d = a / 4;
    let e = (a % 4 * 16 + b / 16) as u8;
    let f = (b % 16 * 4 + c / 64) as u8;
    let g = c % 64;
    assert(d * 262144 + e * 4096 + f * 64 + g == a * 65536 + b * 256 + c);
    assert(base64(s) == seq![digit64(d), digit64(e), digit64(f), digit64(g)] + base64(rest));
}

proof fn lemma_last_digits(a: u8, b: u8)
    ensures
        base64(Seq::<u8>::empty()) == Seq::<char>::empty(),
        base64(seq![a]) == base64(seq![a, 0, 0]).take(2).push('=').push('='),
        base64(seq![a, b]) == base64(seq![a, b, 0]).take(3).push('='),
{
    assert(seq![a, 0u8, 0u8].skip(3) =~= Seq::<u8>::empty());
    assert(seq![a, b, 0u8].skip(3) =~= Seq::<u8>::empty());
    assert(base64(seq![a]) =~= base64(seq![a, 0, 0]).take(2).push('=').push('='));
    assert(base64(seq![a, b]) =~= base64(seq![a, b, 0]).take(3).push('='));
}

/// A question about a picture goes out in one message of the user, the picture first.
pub proof fn the_picture_goes_before_the_question(
    model: Seq<char>,
    image: Seq<char>,
    question: Seq<char>,
)
    ensures
        ({
            let r = request_json(model, image, question);
            let f = r->Obj_0;
            let m = f[1].1->Arr_0[0]->Obj_0;
            let parts = m[1].1->Arr_0;
            &&& r is Obj
            &&& f.len() == 4
            &&& f[0] == ("model"@, JVal::Str(model))
            &&& f[1].0 == "messages"@
            &&& f[1].1->Arr_0.len() == 1
            &&& m[0] == ("role"@, JVal::Str("user"@))
            &&& m[1].0 == "content"@
            &&& parts.len() == 2
            &&& parts[0]->Obj_0[0] == ("type"@, JVal::Str("image_url"@))
            &&& parts[0]->Obj_0[1].0 == "image_url"@
            &&& parts[0]->Obj_0[1].1->Obj_0[0] == ("url"@, JVal::Str(image))
            &&& parts[1]->Obj_0[0] == ("type"@, JVal::Str("text"@))
            &&& parts[1]->Obj_0[1] == ("text"@, JVal::Str(question))
            &&& f[2] == ("max_tokens"@, JVal::UInt(200))
        }),
{
}

/// Each name stands for one tool, with the settings that the configuration gives it.
pub proof fn each_name_stands_for_one_tool(
    t: SystemTool,
    name: Seq<char>,
    cfg: SystemToolsConfig,
)
    requires
        is_tool(t, name, cfg),
    ensures
        name == "open_app"@ <==> t is OpenApp,
        name == "open_url"@ <==> t is OpenUrl,
        name == "notification"@ <==> t is Notification,
        name == "current_window"@ <==> t is CurrentWindow,
        name == "screenshot"@ <==> t is Screenshot,
        name == "clipboard_get"@ <==> t is ClipboardGet,
        name == "web_search"@ <==> t is WebSearch,
        name == "memctl_recall"@ <==> t is MemctlRecall,
        name == "memctl_ingest"@ <==> t is MemctlIngest,
        name == "dispatch_agent"@ <==> t is DispatchAgent,
        name == "click"@ <==> t is Click,
        name == "type_text"@ <==> t is TypeText,
        name == "key_combo"@ <==> t is KeyCombo,
        name == "scroll"@ <==> t is Scroll,
        name == "focus_window"@ <==> t is FocusWindow,
        name == "get_mouse"@ <==> t is GetMouse,
        name == "look_at_screen"@ <==> t is LookAtScreen,
        t is Screenshot ==> t->Screenshot_0.cache() == cfg.cache_dir@,
        t is WebSearch ==> t->WebSearch_0.base() == cfg.searxng_url@,
        t is MemctlRecall ==> t->MemctlRecall_0.program() == cfg.memctl_bin@,
        t is MemctlIngest ==> t->MemctlIngest_0.program() == cfg.memctl_bin@,
        t is Click ==> t->Click_0.policy.mode == cfg.computer_use_safety.mode,
        t is TypeText ==> t->TypeText_0.policy.mode == cfg.computer_use_safety.mode,
        t is KeyCombo ==> t->KeyCombo_0.policy.mode == cfg.computer_use_safety.mode,
        t is Scroll ==> t->Scroll_0.policy.mode == cfg.computer_use_safety.mode,
        t is FocusWindow ==> t->FocusWindow_0.policy.mode == cfg.computer_use_safety.mode,
{
    lemma_tool_names();
}

/// Something by which each name of a tool differs from all others.
spec fn signature(s: Seq<char>) -> (nat, char, char) {
    (s.len(), s[0], s[4])
}

proof fn lemma_tool_names()
    ensures
        signature("open_app"@) == (8nat, 'o', '_'),
        signature("open_url"@) == (8nat, 'o', '_'),
        "open_app"@[5] == 'a',
        "open_url"@[5] == 'u',
        signature("notification"@) == (12nat, 'n', 'f'),
        signature("current_window"@) == (14nat, 'c', 'e'),
        signature("screenshot"@) == (10nat, 's', 'e'),
        signature("clipboard_get"@) == (13nat, 'c', 'b'),
        signature("web_search"@) == (10nat, 'w', 's'),
        signature("memctl_recall"@) == (13nat, 'm', 't'),
        signature("memctl_ingest"@) == (13nat, 'm', 't'),
        "memctl_recall"@[7] == 'r',
        "memctl_ingest"@[7] == 'i',
        signature("dispatch_agent"@) == (14nat, 'd', 'a'),
        signature("click"@) == (5nat, 'c', 'k'),
        signature("type_text"@) == (9nat, 't', '_'),
        signature("key_combo"@) == (9nat, 'k', 'c'),
        signature("scroll"@) == (6nat, 's', 'l'),
        signature("focus_window"@) == (12nat, 'f', 's'),
        signature("get_mouse"@) == (9nat, 'g', 'm'),
        signature("look_at_screen"@) == (14nat, 'l', '_'),
{
    reveal_strlit("open_app");
    reveal_strlit("open_url");
    reveal_strlit("notification");
    reveal_strlit("current_window");
    reveal_strlit("screenshot");
    reveal_strlit("clipboard_get");
    reveal_strlit("web_search");
    reveal_strlit("memctl_recall");
    reveal_strlit("memctl_ingest");
    reveal_strlit("dispatch_agent");
    reveal_strlit("click");
    reveal_strlit("type_text");
    reveal_strlit("key_combo");
    reveal_strlit("scroll");
    reveal_strlit("focus_window");
    reveal_strlit("get_mouse");
    reveal_strlit("look_at_screen");
}

/// Where the tools find what they need unless they are told otherwise, and that they ask
/// for approval then.
pub proof fn the_usual_settings_ask_for_approval(c: SystemToolsConfig, home: Seq<char>)
    requires
        c.is_for(home),
    ensures
        c.searxng_url@ == "http://lnx-rig:8888"@,
        c.memctl_bin@ == joined(home, ".local/bin/memctl"@),
        c.cache_dir@ == joined(home, ".cache/voicectl"@),
        c.computer_use_safety.mode == SafetyMode::Confirm,
        texts(c.computer_use_safety.safe_keys@) == navigation_keys(),
        texts(c.computer_use_safety.safe_focus_apps@) == typing_apps(),
{
}

/// A tool's policy is that of the configuration, in its mode and in both its lists.
pub proof fn a_policy_is_kept_whole(a: SafetyPolicy, b: SafetyPolicy)
    ensures
        same_policy(a, b) <==> a.mode == b.mode && texts(a.safe_keys@) == texts(b.safe_keys@)
            && texts(a.safe_focus_apps@) == texts(b.safe_focus_apps@),
{
}

/// A text part is added behind those before it, on a line of its own.
pub proof fn a_text_part_is_added_behind(parts: Seq<JVal>, p: JVal)
    ensures
        ({
            let before = parts_text(parts);
            let after = parts_text(parts.push(p));
            if p.field("text"@) is Str {
                let t = p.field("text"@)->Str_0;
                if before.len() == 0 {
                    after == t
                } else {
                    after == before.push('\n') + t
                }
            } else {
                after == before
            }
        }),
{
    assert(parts.push(p).drop_last() =~= parts);
    let before = parts_text(parts);
    if before.len() == 0 && p.field("text"@) is Str {
        assert(before + p.field("text"@)->Str_0 =~= p.field("text"@)->Str_0);
    }
}

} // verus!
