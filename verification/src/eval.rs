//! Evaluation of an agent on scenarios: what is measured, what is checked, and the
//! report.
use vstd::prelude::*;
use vstd::string::*;
use crate::calendar::{a_day_has_one_date, civil_from_days, day_number, is_date};
use crate::decimal::{dec, dec_pad, decimal, decimal_padded};
use crate::message::{sat_u32, ToolCall, UsageStats};
use crate::pieces::{join_texts, lemma_texts_push, split_lines, split_words, take_chars, trimmed};
use crate::search::{contains, has, join, lines, lowercase, texts, to_lower, trim, words};
use crate::text::{cat2, cat3, cat4, cat5, chars_of, clip, clip_text, copy, quote, quoted};

verus! {

/// What is measured while a scenario runs.
#[derive(Debug)]
pub struct Metrics {
    pub tool_calls: Vec<String>,
    pub usage: Vec<UsageStats>,
}

/// Token counts of turns together, each sum capped at the largest `u32`.
pub open spec fn combined(u: Seq<UsageStats>) -> UsageStats
    decreases u.len(),
{
    if u.len() == 0 {
        UsageStats { prompt_tokens: 0, completion_tokens: 0 }
    } else {
        combined(u.drop_last()).plus(u.last())
    }
}

impl Metrics {
    pub fn new() -> (r: Metrics)
        ensures
            r.tool_calls@.len() == 0,
            r.usage@.len() == 0,
    {
        Metrics { tool_calls: Vec::new(), usage: Vec::new() }
    }

    /// Notes a tool call.
    pub fn on_tool_start(&mut self, call: &ToolCall)
        ensures
            final(self).usage == old(self).usage,
            texts(final(self).tool_calls@) == texts(old(self).tool_calls@).push(call@.name),
    {
        let name = copy(call.function.name.as_str());
        proof {
            lemma_texts_push(self.tool_calls@, name);
        }
        self.tool_calls.push(name);
    }

    /// Notes the token counts of a turn.
    pub fn on_step_usage(&mut self, usage: UsageStats)
        ensures
            final(self).tool_calls == old(self).tool_calls,
            final(self).usage@ == old(self).usage@.push(usage),
    {
        self.usage.push(usage);
    }

    /// Takes what was measured; nothing is left.
    pub fn drain(&mut self) -> (r: (Vec<String>, UsageStats))
        ensures
            r.0 == old(self).tool_calls,
            r.1 == combined(old(self).usage@),
            final(self).tool_calls@.len() == 0,
            final(self).usage@.len() == 0,
    {
        let mut tools: Vec<String> = Vec::new();
        std::mem::swap(&mut tools, &mut self.tool_calls);
        let mut usage: Vec<UsageStats> = Vec::new();
        std::mem::swap(&mut usage, &mut self.usage);
        let mut sum = UsageStats::default();
        let n: usize = usage.len();
        let mut i: usize = 0;
        assert(usage@.take(0) =~= Seq::empty());
        while i < n
            invariant
                i <= n,
                n == usage@.len(),
                sum == combined(usage@.take(i as int)),
            decreases n - i,
        {
            assert(usage@.take(i as int + 1).drop_last() =~= usage@.take(i as int));
            sum = sum.accumulate(usage[i]);
            i += 1;
        }
        assert(usage@.take(n as int) =~= usage@);
        (tools, sum)
    }
}

/// The outcome of a scenario.
#[derive(Debug)]
pub struct ScenarioResult {
    pub name: String,
    pub level: u8,
    pub passed: bool,
    pub elapsed_ms: u64,
    pub turns: usize,
    pub tool_calls: Vec<String>,
    pub usage: UsageStats,
    pub reply_excerpt: String,
    pub failure: Option<String>,
}

/// Characters of a reply that the report shows.
pub const EXCERPT_CHARS: usize = 300;

/// What was measured of a scenario.
#[derive(Debug)]
pub struct Measured {
    pub elapsed_ms: u64,
    pub turns: usize,
    pub tool_calls: Vec<String>,
    pub usage: UsageStats,
}

/// The outcome of a scenario, from the reply and the check of what was left
/// behind. The check counts only where there is a reply.
pub fn run(
    level: u8,
    name: &str,
    measured: Measured,
    reply: Result<String, String>,
    check: Result<(), String>,
    check_name: &str,
) -> (r: ScenarioResult)
    ensures
        r.name@ == name@,
        r.level == level,
        r.elapsed_ms == measured.elapsed_ms,
        r.turns == measured.turns,
        r.tool_calls == measured.tool_calls,
        r.usage == measured.usage,
        r.passed == (reply is Ok && check is Ok),
        match reply {
            Ok(text) => {
                &&& r.reply_excerpt@ == (if text@.len() <= EXCERPT_CHARS {
                    text@
                } else {
                    text@.take(EXCERPT_CHARS as int)
                })
                &&& match check {
                    Ok(()) => r.failure is None,
                    Err(e) => r.failure is Some && r.failure->0@ == check_name@ + ": "@ + e@,
                }
            },
            Err(e) => r.reply_excerpt@.len() == 0 && r.failure is Some && r.failure->0@ == e@,
        },
{
    let (passed, reply_excerpt, failure) = match reply {
        Ok(text) => {
            let excerpt = take_chars(text.as_str(), EXCERPT_CHARS);
            match check {
                Ok(()) => (true, excerpt, None),
                Err(e) => (false, excerpt, Some(cat3(check_name, ": ", e.as_str()))),
            }
        },
        Err(e) => (false, String::new(), Some(e)),
    };
    ScenarioResult {
        name: copy(name),
        level,
        passed,
        elapsed_ms: measured.elapsed_ms,
        turns: measured.turns,
        tool_calls: measured.tool_calls,
        usage: measured.usage,
        reply_excerpt,
        failure,
    }
}

/// Bytes of a file that a failed check shows.
pub const SHOWN_BYTES: usize = 200;

/// Whether a file holds a text, from what was read of it.
pub fn file_contains(path: &str, content: Result<String, String>, filename: &str, needle: &str) -> (r:
    Result<(), String>)
    ensures
        match content {
            Err(e) => r is Err && r->Err_0@ == path@ + ": "@ + e@,
            Ok(c) => if has(c@, needle@) {
                r is Ok
            } else {
                r is Err && r->Err_0@ == "'"@ + needle@ + "' not found in "@ + filename@
                    + " (content: "@ + (quoted(clip(c@, SHOWN_BYTES as nat)) + ")"@)
            },
        },
{
    match content {
        Err(e) => Err(cat3(path, ": ", e.as_str())),
        Ok(c) => if contains(c.as_str(), needle) {
            Ok(())
        } else {
            let shown = clip_text(c.as_str(), SHOWN_BYTES);
            let q = quote(shown.as_str());
            let tail = cat2(q.as_str(), ")");
            let head = cat5("'", needle, "' not found in ", filename, " (content: ");
            Err(cat2(head.as_str(), tail.as_str()))
        },
    }
}

/// Whether a file exists.
pub fn file_exists(path: &str, exists: bool) -> (r: Result<(), String>)
    ensures
        exists ==> r is Ok,
        !exists ==> r is Err && r->Err_0@ == path@ + " does not exist"@,
{
    if exists {
        Ok(())
    } else {
        Err(cat2(path, " does not exist"))
    }
}

/// A text holds another, whatever their case.
pub open spec fn mentions(reply: Seq<char>, needle: Seq<char>) -> bool {
    has(lowercase(reply), lowercase(needle))
}

/// Whether a reply holds a text, whatever their case.
pub fn reply_contains(reply: &str, needle: &str) -> (r: Result<(), String>)
    ensures
        match r {
            Ok(()) => mentions(reply@, needle@),
            Err(e) => !mentions(reply@, needle@) && e@ == "reply missing '"@ + needle@ + "'"@,
        },
{
    let a = to_lower(reply);
    let b = to_lower(needle);
    if contains(a.as_str(), b.as_str()) {
        Ok(())
    } else {
        Err(cat3("reply missing '", needle, "'"))
    }
}

/// Whether a reply speaks of the laws of thermodynamics.
pub fn names_the_laws(reply: &str) -> (r: Result<(), String>)
    ensures
        match r {
            Ok(()) => mentions(reply@, "entropy"@) || mentions(reply@, "thermodynamic"@) || (
            mentions(reply@, "First Law"@) && mentions(reply@, "Second Law"@)),
            Err(e) => !(mentions(reply@, "entropy"@) || mentions(reply@, "thermodynamic"@) || (
            mentions(reply@, "First Law"@) && mentions(reply@, "Second Law"@))) && e@
                == "expected thermodynamics laws content"@,
        },
{
    if reply_contains(reply, "entropy").is_ok() || reply_contains(reply, "thermodynamic").is_ok()
        || (reply_contains(reply, "First Law").is_ok() && reply_contains(
        reply,
        "Second Law",
    ).is_ok()) {
        Ok(())
    } else {
        Err(copy("expected thermodynamics laws content"))
    }
}

/// The lines that hold more than white space.
pub open spec fn full_lines(ls: Seq<Seq<char>>) -> Seq<Seq<char>>
    decreases ls.len(),
{
    if ls.len() == 0 {
        Seq::empty()
    } else if trim(ls.last()).len() == 0 {
        full_lines(ls.drop_last())
    } else {
        full_lines(ls.drop_last()).push(ls.last())
    }
}

fn keep_full_lines(ls: &Vec<String>) -> (r: Vec<String>)
    ensures
        texts(r@) == full_lines(texts(ls@)),
{
    let mut out: Vec<String> = Vec::new();
    let n: usize = ls.len();
    let mut i: usize = 0;
    let ghost all = texts(ls@);
    assert(all.take(0) =~= Seq::empty());
    assert(texts(out@) =~= Seq::empty());
    while i < n
        invariant
            i <= n,
            n == ls@.len(),
            all == texts(ls@),
            texts(out@) == full_lines(all.take(i as int)),
        decreases n - i,
    {
        proof {
            assert(all.take(i as int + 1).drop_last() =~= all.take(i as int));
            assert(all[i as int] == ls@[i as int]@);
        }
        let t = trimmed(ls[i].as_str());
        if !t.as_str().is_empty() {
            let line = copy(ls[i].as_str());
            proof {
                lemma_texts_push(out@, line);
            }
            out.push(line);
        }
        i += 1;
    }
    assert(all.take(n as int) =~= all);
    out
}

/// Index of the first line with fewer than five words at or after `i`, or the
/// number of lines.
pub open spec fn short_line(ls: Seq<Seq<char>>, i: int) -> int
    decreases ls.len() - i,
{
    if i < 0 || i >= ls.len() {
        ls.len() as int
    } else if words(ls[i]).len() < 5 {
        i
    } else {
        short_line(ls, i + 1)
    }
}

/// Whether a poem has four lines, each of at least five words, from what was read
/// of its file.
pub fn poem_is_complete(content: Result<String, String>) -> (r: Result<(), String>)
    ensures
        match content {
            Err(e) => r is Err && r->Err_0@ == "poem.txt: "@ + e@,
            Ok(c) => {
                let ls = full_lines(lines(c@));
                let k = short_line(ls, 0);
                if ls.len() < 4 {
                    r is Err && r->Err_0@ == "poem.txt has "@ + dec(ls.len())
                        + " lines, expected 4"@
                } else if 0 <= k < ls.len() {
                    r is Err && r->Err_0@ == "line "@ + dec((k + 1) as nat) + " has only "@ + dec(
                        words(ls[k]).len(),
                    ) + " words: "@ + quoted(ls[k])
                } else {
                    r is Ok
                }
            },
        },
{
    let c = match content {
        Err(e) => {
            return Err(cat2("poem.txt: ", e.as_str()));
        },
        Ok(c) => c,
    };
    let all = split_lines(c.as_str());
    let ls = keep_full_lines(&all);
    let n: usize = ls.len();
    let ghost full = full_lines(lines(c@));
    assert(texts(ls@).len() == n);
    if n < 4 {
        let d = decimal(n as u64);
        return Err(cat3("poem.txt has ", d.as_str(), " lines, expected 4"));
    }
    let mut i: usize = 0;
    while i < n
        invariant
            i <= n,
            n == ls@.len(),
            texts(ls@) == full,
            content is Ok,
            full == full_lines(lines(content->Ok_0@)),
            full.len() >= 4,
            short_line(full, 0) == short_line(full, i as int),
        decreases n - i,
    {
        assert(full[i as int] == ls@[i as int]@);
        let w = split_words(ls[i].as_str());
        assert(texts(w@).len() == w@.len());
        if w.len() < 5 {
            let place = decimal(i as u64 + 1);
            let count = decimal(w.len() as u64);
            let q = quote(ls[i].as_str());
            let head = cat4("line ", place.as_str(), " has only ", count.as_str());
            return Err(cat3(head.as_str(), " words: ", q.as_str()));
        }
        i += 1;
    }
    Ok(())
}

/// A date as text.
pub open spec fn date_text(y: int, m: int, d: int) -> Seq<char> {
    dec(y as nat) + "-"@ + dec_pad(m as nat, 2) + "-"@ + dec_pad(d as nat, 2)
}

/// The text is that of the day on which a moment lies.
pub open spec fn is_day_text(s: Seq<char>, secs: int) -> bool {
    exists|y: int, m: int, d: int|
        is_date(y, m, d) && #[trigger] day_number(y, m, d) == secs / 86400 && s == date_text(y, m, d)
}

/// The day on which a moment lies, in UTC. Moments are seconds since 1970.
pub fn chrono_now(secs: u64) -> (r: String)
    ensures
        is_day_text(r@, secs as int),
{
    let (y, m, d) = civil_from_days(secs / 86400);
    let ys = decimal(y);
    let ms = decimal_padded(m, 2);
    let ds = decimal_padded(d, 2);
    let r = cat5(ys.as_str(), "-", ms.as_str(), "-", ds.as_str());
    assert(r@ == date_text(y as int, m as int, d as int));
    assert(day_number(y as int, m as int, d as int) == secs as int / 86400);
    r
}

/// A moment lies on one day only.
pub proof fn a_moment_has_one_day(s: Seq<char>, t: Seq<char>, secs: int)
    requires
        is_day_text(s, secs),
        is_day_text(t, secs),
    ensures
        s == t,
{
    let (y1, m1, d1) = choose|y: int, m: int, d: int|
        is_date(y, m, d) && #[trigger] day_number(y, m, d) == secs / 86400 && s == date_text(y, m, d);
    let (y2, m2, d2) = choose|y: int, m: int, d: int|
        is_date(y, m, d) && #[trigger] day_number(y, m, d) == secs / 86400 && t == date_text(y, m, d);
    a_day_has_one_date(y1, m1, d1, y2, m2, d2);
}

/// A mark for whether a scenario passed.
pub open spec fn mark(passed: bool) -> Seq<char> {
    if passed {
        "✅"@
    } else {
        "❌"@
    }
}

/// All tokens of a scenario.
pub open spec fn tokens(r: ScenarioResult) -> int {
    sat_u32(r.usage.prompt_tokens + r.usage.completion_tokens)
}

/// The scenario's row in the summary.
pub open spec fn row(r: ScenarioResult) -> Seq<char> {
    "| L"@ + dec(r.level as nat) + " | "@ + r.name@ + " | "@ + (mark(r.passed) + " | "@ + dec(
        r.elapsed_ms as nat,
    ) + " | "@ + dec(r.turns as nat)) + (" | "@ + dec(r.tool_calls@.len()) + " | "@ + dec(
        r.usage.prompt_tokens as nat,
    ) + " | "@) + (dec(r.usage.completion_tokens as nat) + " |\n"@)
}

fn row_text(r: &ScenarioResult) -> (s: String)
    ensures
        s@ == row(*r),
{
    let level = decimal(r.level as u64);
    let ms = decimal(r.elapsed_ms);
    let turns = decimal(r.turns as u64);
    let tools = decimal(r.tool_calls.len() as u64);
    let prompt = decimal(r.usage.prompt_tokens as u64);
    let completion = decimal(r.usage.completion_tokens as u64);
    let mark = if r.passed {
        "✅"
    } else {
        "❌"
    };
    let a = cat5("| L", level.as_str(), " | ", r.name.as_str(), " | ");
    let b = cat5(mark, " | ", ms.as_str(), " | ", turns.as_str());
    let c = cat5(" | ", tools.as_str(), " | ", prompt.as_str(), " | ");
    let d = cat2(completion.as_str(), " |\n");
    cat4(a.as_str(), b.as_str(), c.as_str(), d.as_str())
}

/// The debug form of texts: in quotes, between brackets.
pub open spec fn quoted_list(v: Seq<Seq<char>>) -> Seq<char> {
    "["@ + join(v.map_values(|s: Seq<char>| quoted(s)), ", "@) + "]"@
}

fn quote_list(v: &Vec<String>) -> (r: String)
    ensures
        r@ == quoted_list(texts(v@)),
{
    let mut parts: Vec<String> = Vec::new();
    let n: usize = v.len();
    let mut i: usize = 0;
    let ghost all = texts(v@).map_values(|s: Seq<char>| quoted(s));
    while i < n
        invariant
            i <= n,
            n == v@.len(),
            all == texts(v@).map_values(|s: Seq<char>| quoted(s)),
            texts(parts@) == all.take(i as int),
        decreases n - i,
    {
        let q = quote(v[i].as_str());
        proof {
            lemma_texts_push(parts@, q);
            assert(texts(v@)[i as int] == v@[i as int]@);
        }
        parts.push(q);
        assert(texts(parts@) =~= all.take(i as int + 1));
        i += 1;
    }
    assert(texts(parts@) =~= all);
    let inner = join_texts(&parts, ", ");
    cat3("[", inner.as_str(), "]")
}

/// What the report says of a scenario.
pub open spec fn details(r: ScenarioResult) -> Seq<char> {
    let head = "### L"@ + dec(r.level as nat) + " — "@ + r.name@ + (if r.passed {
        " [PASS]\n\n"@
    } else {
        " [FAIL]\n\n"@
    });
    let figures = "- **Time:** "@ + dec(r.elapsed_ms as nat) + "ms\n- **Message turns:** "@ + dec(
        r.turns as nat,
    ) + "\n- **Tools called:** "@;
    let counts = "\n- **Tokens:** "@ + dec(r.usage.prompt_tokens as nat) + " prompt / "@ + dec(
        r.usage.completion_tokens as nat,
    ) + " completion / "@;
    let failure = match r.failure {
        Some(f) => "- **Failure:** `"@ + f@ + "`\n"@,
        None => ""@,
    };
    let excerpt = if r.reply_excerpt@.len() > 0 {
        "\n**Reply excerpt:**\n```\n"@ + r.reply_excerpt@ + "\n```\n"@
    } else {
        ""@
    };
    head + figures + quoted_list(texts(r.tool_calls@)) + counts + (dec(tokens(r) as nat)
        + " total\n"@ + failure + excerpt + "\n"@)
}

fn details_text(r: &ScenarioResult) -> (s: String)
    ensures
        s@ == details(*r),
{
    let level = decimal(r.level as u64);
    let ms = decimal(r.elapsed_ms);
    let turns = decimal(r.turns as u64);
    let tools = quote_list(&r.tool_calls);
    let prompt = decimal(r.usage.prompt_tokens as u64);
    let completion = decimal(r.usage.completion_tokens as u64);
    let total = decimal(r.usage.total() as u64);
    let status = if r.passed {
        " [PASS]\n\n"
    } else {
        " [FAIL]\n\n"
    };
    let head = cat5("### L", level.as_str(), " — ", r.name.as_str(), status);
    let figures = cat5(
        "- **Time:** ",
        ms.as_str(),
        "ms\n- **Message turns:** ",
        turns.as_str(),
        "\n- **Tools called:** ",
    );
    let counts = cat5(
        "\n- **Tokens:** ",
        prompt.as_str(),
        " prompt / ",
        completion.as_str(),
        " completion / ",
    );
    let failure = match &r.failure {
        Some(f) => cat3("- **Failure:** `", f.as_str(), "`\n"),
        None => copy(""),
    };
    let excerpt = if r.reply_excerpt.as_str().is_empty() {
        copy("")
    } else {
        cat3("\n**Reply excerpt:**\n```\n", r.reply_excerpt.as_str(), "\n```\n")
    };
    let tail = cat5(total.as_str(), " total\n", failure.as_str(), excerpt.as_str(), "\n");
    cat5(head.as_str(), figures.as_str(), tools.as_str(), counts.as_str(), tail.as_str())
}

/// A number, right-aligned in six columns.
pub open spec fn six_columns(n: nat) -> Seq<char> {
    let d = dec(n);
    if d.len() >= 6 {
        d
    } else {
        Seq::new((6 - d.len()) as nat, |i: int| ' ') + d
    }
}

fn in_six_columns(n: u64) -> (r: String)
    ensures
        r@ == six_columns(n as nat),
{
    let d = decimal(n);
    let len: usize = chars_of(d.as_str()).len();
    let mut out = String::new();
    let mut i: usize = len;
    while i < 6
        invariant
            len <= i,
            i <= 6 || i == len,
            out@ == Seq::new((i - len) as nat, |i: int| ' '),
        decreases 6 - i,
    {
        out.push(' ');
        i += 1;
        assert(out@ =~= Seq::new((i - len) as nat, |i: int| ' '));
    }
    out.append(d.as_str());
    assert(out@ =~= six_columns(n as nat));
    out
}

/// A bar of at most 80 marks, one for each hundred.
pub open spec fn bar(n: nat) -> Seq<char> {
    Seq::new(if n / 100 < 80 { n / 100 } else { 80 }, |i: int| '#')
}

fn bar_text(n: u32) -> (r: String)
    ensures
        r@ == bar(n as nat),
{
    let k: u32 = if n / 100 < 80 {
        n / 100
    } else {
        80
    };
    let mut out = String::new();
    let mut i: u32 = 0;
    while i < k
        invariant
            i <= k,
            out@ == Seq::new(i as nat, |i: int| '#'),
        decreases k - i,
    {
        out.push('#');
        i += 1;
        assert(out@ =~= Seq::new(i as nat, |i: int| '#'));
    }
    out
}

/// The scenario's line in the growth of token counts.
pub open spec fn growth(r: ScenarioResult) -> Seq<char> {
    "  L"@ + dec(r.level as nat) + ": "@ + six_columns(tokens(r) as nat) + "t  "@ + (bar(
        tokens(r) as nat,
    ) + "\n"@)
}

fn growth_text(r: &ScenarioResult) -> (s: String)
    ensures
        s@ == growth(*r),
{
    let level = decimal(r.level as u64);
    let total: u32 = r.usage.total();
    let column = in_six_columns(total as u64);
    let b = bar_text(total);
    let tail = cat2(b.as_str(), "\n");
    let head = cat5("  L", level.as_str(), ": ", column.as_str(), "t  ");
    cat2(head.as_str(), tail.as_str())
}

/// The levels of the scenarios that passed.
pub open spec fn passed_levels(rs: Seq<ScenarioResult>) -> Seq<Seq<char>>
    decreases rs.len(),
{
    if rs.len() == 0 {
        Seq::empty()
    } else if rs.last().passed {
        passed_levels(rs.drop_last()).push(dec(rs.last().level as nat))
    } else {
        passed_levels(rs.drop_last())
    }
}

/// Index of the first scenario that failed at or after `i`, or the number of
/// scenarios.
pub open spec fn first_failure(rs: Seq<ScenarioResult>, i: int) -> int
    decreases rs.len() - i,
{
    if i < 0 || i >= rs.len() {
        rs.len() as int
    } else if !rs[i].passed {
        i
    } else {
        first_failure(rs, i + 1)
    }
}

/// Tokens of all prompts.
pub open spec fn prompt_sum(rs: Seq<ScenarioResult>) -> nat
    decreases rs.len(),
{
    if rs.len() == 0 {
        0
    } else {
        prompt_sum(rs.drop_last()) + rs.last().usage.prompt_tokens as nat
    }
}

/// Tokens of all completions.
pub open spec fn completion_sum(rs: Seq<ScenarioResult>) -> nat
    decreases rs.len(),
{
    if rs.len() == 0 {
        0
    } else {
        completion_sum(rs.drop_last()) + rs.last().usage.completion_tokens as nat
    }
}

/// The report's analysis of where scenarios begin to fail.
pub open spec fn degradation(rs: Seq<ScenarioResult>) -> Seq<char> {
    let k = first_failure(rs, 0);
    let first = if 0 <= k < rs.len() {
        "**First failure:** L"@ + dec(rs[k].level as nat) + " — "@ + rs[k].name@ + (
        match rs[k].failure {
            Some(m) => "\n**Reason:** "@ + m@ + "\n"@,
            None => "\n"@,
        })
    } else {
        "**All scenarios passed** — no degradation detected at this depth.\n"@
    };
    "## Degradation Analysis\n\n"@ + first + "\n**Passed levels:** ["@ + join(
        passed_levels(rs),
        ", "@,
    ) + ("]\n\n**Token growth by level:**\n"@ + join(
        rs.map_values(|r: ScenarioResult| growth(r)),
        ""@,
    ))
}

/// The report.
pub open spec fn report(rs: Seq<ScenarioResult>, date: Seq<char>) -> Seq<char> {
    let head = "# agnt End-to-End Eval Report\n\nModel: `gemma4-26b` @ `localhost:8001`  \nDate: `"@
        + date + "`\n\n## Summary\n\n"@
        + "| Level | Scenario | Pass | Time (ms) | Turns | Tools | Prompt T | Completion T |\n"@
        + "|-------|----------|------|-----------|-------|-------|----------|--------------|\n"@;
    let passed = "\n**Passed:** "@ + dec(passed_levels(rs).len()) + "/"@ + dec(rs.len())
        + "\n**Total tokens:** "@;
    let totals = dec(prompt_sum(rs)) + " prompt + "@ + dec(completion_sum(rs)) + " completion = "@
        + (dec(prompt_sum(rs) + completion_sum(rs)) + " total\n\n## Scenario Details\n\n"@);
    let tail = if rs.len() >= 2 {
        degradation(rs)
    } else {
        ""@
    };
    head + join(rs.map_values(|r: ScenarioResult| row(r)), ""@) + passed + totals + (join(
        rs.map_values(|r: ScenarioResult| details(r)),
        ""@,
    ) + tail)
}

/// The rows of all scenarios.
fn all_rows(rs: &Vec<ScenarioResult>) -> (r: String)
    ensures
        r@ == join(rs@.map_values(|r: ScenarioResult| row(r)), ""@),
{
    let mut parts: Vec<String> = Vec::new();
    let n: usize = rs.len();
    let mut i: usize = 0;
    let ghost all = rs@.map_values(|r: ScenarioResult| row(r));
    while i < n
        invariant
            i <= n,
            n == rs@.len(),
            all == rs@.map_values(|r: ScenarioResult| row(r)),
            texts(parts@) == all.take(i as int),
        decreases n - i,
    {
        let s = row_text(&rs[i]);
        proof {
            lemma_texts_push(parts@, s);
        }
        parts.push(s);
        assert(texts(parts@) =~= all.take(i as int + 1));
        i += 1;
    }
    assert(texts(parts@) =~= all);
    join_texts(&parts, "")
}

/// The details of all scenarios.
fn all_details(rs: &Vec<ScenarioResult>) -> (r: String)
    ensures
        r@ == join(rs@.map_values(|r: ScenarioResult| details(r)), ""@),
{
    let mut parts: Vec<String> = Vec::new();
    let n: usize = rs.len();
    let mut i: usize = 0;
    let ghost all = rs@.map_values(|r: ScenarioResult| details(r));
    while i < n
        invariant
            i <= n,
            n == rs@.len(),
            all == rs@.map_values(|r: ScenarioResult| details(r)),
            texts(parts@) == all.take(i as int),
        decreases n - i,
    {
        let s = details_text(&rs[i]);
        proof {
            lemma_texts_push(parts@, s);
        }
        parts.push(s);
        assert(texts(parts@) =~= all.take(i as int + 1));
        i += 1;
    }
    assert(texts(parts@) =~= all);
    join_texts(&parts, "")
}

/// The growth lines of all scenarios.
fn all_growth(rs: &Vec<ScenarioResult>) -> (r: String)
    ensures
        r@ == join(rs@.map_values(|r: ScenarioResult| growth(r)), ""@),
{
    let mut parts: Vec<String> = Vec::new();
    let n: usize = rs.len();
    let mut i: usize = 0;
    let ghost all = rs@.map_values(|r: ScenarioResult| growth(r));
    while i < n
        invariant
            i <= n,
            n == rs@.len(),
            all == rs@.map_values(|r: ScenarioResult| growth(r)),
            texts(parts@) == all.take(i as int),
        decreases n - i,
    {
        let s = growth_text(&rs[i]);
        proof {
            lemma_texts_push(parts@, s);
        }
        parts.push(s);
        assert(texts(parts@) =~= all.take(i as int + 1));
        i += 1;
    }
    assert(texts(parts@) =~= all);
    join_texts(&parts, "")
}

fn levels_of_passed(rs: &Vec<ScenarioResult>) -> (r: Vec<String>)
    ensures
        texts(r@) == passed_levels(rs@),
{
    let mut out: Vec<String> = Vec::new();
    let n: usize = rs.len();
    let mut i: usize = 0;
    assert(rs@.take(0) =~= Seq::empty());
    assert(texts(out@) =~= Seq::empty());
    while i < n
        invariant
            i <= n,
            n == rs@.len(),
            texts(out@) == passed_levels(rs@.take(i as int)),
        decreases n - i,
    {
        assert(rs@.take(i as int + 1).drop_last() =~= rs@.take(i as int));
        if rs[i].passed {
            let s = decimal(rs[i].level as u64);
            proof {
                lemma_texts_push(out@, s);
            }
            out.push(s);
        }
        i += 1;
    }
    assert(rs@.take(n as int) =~= rs@);
    out
}

fn find_failure(rs: &Vec<ScenarioResult>) -> (r: usize)
    ensures
        r == first_failure(rs@, 0),
        r <= rs@.len(),
{
    let n: usize = rs.len();
    let mut i: usize = 0;
    while i < n
        invariant
            i <= n,
            n == rs@.len(),
            first_failure(rs@, 0) == first_failure(rs@, i as int),
        decreases n - i,
    {
        if !rs[i].passed {
            return i;
        }
        i += 1;
    }
    n
}

proof fn lemma_sums_grow(rs: Seq<ScenarioResult>, i: int)
    requires
        0 <= i <= rs.len(),
    ensures
        prompt_sum(rs.take(i)) <= prompt_sum(rs),
        completion_sum(rs.take(i)) <= completion_sum(rs),
    decreases rs.len() - i,
{
    if i < rs.len() {
        lemma_sums_grow(rs, i + 1);
        assert(rs.take(i + 1).drop_last() =~= rs.take(i));
    } else {
        assert(rs.take(i) =~= rs);
    }
}

fn token_sums(rs: &Vec<ScenarioResult>) -> (r: (u32, u32))
    requires
        prompt_sum(rs@) + completion_sum(rs@) <= u32::MAX,
    ensures
        r.0 == prompt_sum(rs@),
        r.1 == completion_sum(rs@),
{
    let n: usize = rs.len();
    let mut i: usize = 0;
    let mut prompt: u32 = 0;
    let mut completion: u32 = 0;
    assert(rs@.take(0) =~= Seq::empty());
    while i < n
        invariant
            i <= n,
            n == rs@.len(),
            prompt_sum(rs@) + completion_sum(rs@) <= u32::MAX,
            prompt == prompt_sum(rs@.take(i as int)),
            completion == completion_sum(rs@.take(i as int)),
        decreases n - i,
    {
        proof {
            lemma_sums_grow(rs@, i as int + 1);
            assert(rs@.take(i as int + 1).drop_last() =~= rs@.take(i as int));
        }
        prompt += rs[i].usage.prompt_tokens;
        completion += rs[i].usage.completion_tokens;
        i += 1;
    }
    assert(rs@.take(n as int) =~= rs@);
    (prompt, completion)
}

fn degradation_text(rs: &Vec<ScenarioResult>) -> (r: String)
    ensures
        r@ == degradation(rs@),
{
    let k: usize = find_failure(rs);
    let first = if k < rs.len() {
        let level = decimal(rs[k].level as u64);
        let reason = match &rs[k].failure {
            Some(m) => cat3("\n**Reason:** ", m.as_str(), "\n"),
            None => copy("\n"),
        };
        cat5("**First failure:** L", level.as_str(), " — ", rs[k].name.as_str(), reason.as_str())
    } else {
        copy("**All scenarios passed** — no degradation detected at this depth.\n")
    };
    let passed = levels_of_passed(rs);
    let levels = join_texts(&passed, ", ");
    let lines = all_growth(rs);
    let tail = cat2("]\n\n**Token growth by level:**\n", lines.as_str());
    cat5(
        "## Degradation Analysis\n\n",
        first.as_str(),
        "\n**Passed levels:** [",
        levels.as_str(),
        tail.as_str(),
    )
}

/// The report on scenarios.
pub fn print_report(results: &Vec<ScenarioResult>, date: &str) -> (r: String)
    requires
        prompt_sum(results@) + completion_sum(results@) <= u32::MAX,
    ensures
        r@ == report(results@, date@),
{
    let head = cat5(
        "# agnt End-to-End Eval Report\n\nModel: `gemma4-26b` @ `localhost:8001`  \nDate: `",
        date,
        "`\n\n## Summary\n\n",
        "| Level | Scenario | Pass | Time (ms) | Turns | Tools | Prompt T | Completion T |\n",
        "|-------|----------|------|-----------|-------|-------|----------|--------------|\n",
    );
    let rows = all_rows(results);
    let levels = levels_of_passed(results);
    assert(texts(levels@).len() == levels@.len());
    let pass = decimal(levels.len() as u64);
    let count = decimal(results.len() as u64);
    let passed = cat5(
        "\n**Passed:** ",
        pass.as_str(),
        "/",
        count.as_str(),
        "\n**Total tokens:** ",
    );
    let (prompt, completion) = token_sums(results);
    let p = decimal(prompt as u64);
    let c = decimal(completion as u64);
    let t = decimal((prompt + completion) as u64);
    let end = cat2(t.as_str(), " total\n\n## Scenario Details\n\n");
    let totals = cat5(p.as_str(), " prompt + ", c.as_str(), " completion = ", end.as_str());
    let parts = all_details(results);
    let analysis = if results.len() >= 2 {
        degradation_text(results)
    } else {
        copy("")
    };
    let tail = cat2(parts.as_str(), analysis.as_str());
    cat5(head.as_str(), rows.as_str(), passed.as_str(), totals.as_str(), tail.as_str())
}

/// The usage of several turns is that of each added to the others.
pub proof fn usage_of_turns_adds_up(u: Seq<UsageStats>, v: UsageStats)
    ensures
        combined(Seq::empty()) == (UsageStats { prompt_tokens: 0, completion_tokens: 0 }),
        combined(u.push(v)) == combined(u).plus(v),
{
    assert(u.push(v).drop_last() =~= u);
}

/// The lines that count are those with more than white space, in order.
pub proof fn blank_lines_do_not_count(ls: Seq<Seq<char>>)
    ensures
        full_lines(ls) == ls.filter(|l: Seq<char>| trim(l).len() > 0),
    decreases ls.len(),
{
    let full = |l: Seq<char>| trim(l).len() > 0;
    if ls.len() > 0 {
        blank_lines_do_not_count(ls.drop_last());
        assert(ls =~= ls.drop_last().push(ls.last()));
        ls.drop_last().lemma_filter_push(ls.last(), full);
    } else {
        assert(ls.filter(full) =~= Seq::empty());
    }
}

/// A line is too short when it has fewer than five words; the first such line is found.
pub proof fn the_first_short_line_is_found(ls: Seq<Seq<char>>, i: int)
    requires
        0 <= i <= ls.len(),
    ensures
        i <= short_line(ls, i) <= ls.len(),
        short_line(ls, i) < ls.len() ==> words(ls[short_line(ls, i)]).len() < 5,
        forall|j: int| i <= j < short_line(ls, i) ==> words(#[trigger] ls[j]).len() >= 5,
    decreases ls.len() - i,
{
    if i < ls.len() && words(ls[i]).len() >= 5 {
        the_first_short_line_is_found(ls, i + 1);
    }
}

/// The first scenario that failed is found, where there is one.
pub proof fn the_first_failure_is_found(rs: Seq<ScenarioResult>, i: int)
    requires
        0 <= i <= rs.len(),
    ensures
        i <= first_failure(rs, i) <= rs.len(),
        first_failure(rs, i) < rs.len() ==> !rs[first_failure(rs, i)].passed,
        forall|j: int| i <= j < first_failure(rs, i) ==> (#[trigger] rs[j]).passed,
    decreases rs.len() - i,
{
    if i < rs.len() && rs[i].passed {
        the_first_failure_is_found(rs, i + 1);
    }
}

/// The levels that passed are listed in order, and the tokens of all scenarios are
/// added up.
pub proof fn reports_count_every_scenario(rs: Seq<ScenarioResult>, r: ScenarioResult)
    ensures
        passed_levels(rs) == rs.filter(|x: ScenarioResult| x.passed).map_values(
            |x: ScenarioResult| dec(x.level as nat),
        ),
        prompt_sum(Seq::empty()) == 0,
        completion_sum(Seq::empty()) == 0,
        prompt_sum(rs.push(r)) == prompt_sum(rs) + r.usage.prompt_tokens,
        completion_sum(rs.push(r)) == completion_sum(rs) + r.usage.completion_tokens,
    decreases rs.len(),
{
    let ok = |x: ScenarioResult| x.passed;
    let level = |x: ScenarioResult| dec(x.level as nat);
    assert(rs.push(r).drop_last() =~= rs);
    if rs.len() > 0 {
        let p = rs.drop_last();
        reports_count_every_scenario(p, r);
        assert(rs =~= p.push(rs.last()));
        p.lemma_filter_push(rs.last(), ok);
        assert(passed_levels(rs) =~= rs.filter(ok).map_values(level));
    } else {
        assert(rs.filter(ok).map_values(level) =~= Seq::empty());
    }
}

/// A bar has one mark for every hundred tokens, eighty at most.
pub proof fn a_bar_grows_by_the_hundred(n: nat, i: int)
    ensures
        n < 8000 ==> bar(n).len() == n / 100,
        n >= 8000 ==> bar(n).len() == 80,
        0 <= i < bar(n).len() ==> bar(n)[i] == '#',
{
}

/// A reply mentions a text wherever it stands in it, case aside.
pub proof fn a_reply_mentions_what_stands_in_it(reply: Seq<char>, needle: Seq<char>)
    ensures
        mentions(reply, needle) <==> crate::text_laws::within(lowercase(needle), lowercase(reply)),
{
    crate::text_laws::lemma_within(lowercase(needle), lowercase(reply));
}

/// A row of the summary shows the level, the name, the outcome, the time, the turns, the
/// calls and the tokens, in this order.
pub proof fn a_row_shows_the_figures_in_order(r: ScenarioResult)
    ensures
        row(r) == "| L"@ + dec(r.level as nat) + " | "@ + r.name@ + " | "@ + ((if r.passed {
            "✅"@
        } else {
            "❌"@
        }) + " | "@ + dec(r.elapsed_ms as nat) + " | "@ + dec(r.turns as nat)) + (" | "@ + dec(
            r.tool_calls@.len(),
        ) + " | "@ + dec(r.usage.prompt_tokens as nat) + " | "@) + (dec(
            r.usage.completion_tokens as nat,
        ) + " |\n"@),
{
}

/// A number stands at the right of six columns, or takes more where it is longer.
pub proof fn a_number_stands_at_the_right(n: nat)
    ensures
        dec(n).len() >= 6 ==> six_columns(n) == dec(n),
        dec(n).len() < 6 ==> {
            &&& six_columns(n).len() == 6
            &&& six_columns(n).skip(6 - dec(n).len()) == dec(n)
            &&& forall|i: int| 0 <= i < 6 - dec(n).len() ==> #[trigger] six_columns(n)[i] == ' '
        },
{
    if dec(n).len() < 6 {
        assert(six_columns(n).skip(6 - dec(n).len()) =~= dec(n));
    }
}

} // verus!
