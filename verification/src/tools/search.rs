//! `web_search`: results of a SearXNG instance as a numbered list.
use vstd::prelude::*;
use vstd::string::*;
use vstd::utf8::*;
use crate::decimal::{dec, decimal};
use crate::json::{JVal, Json};
use crate::pieces::{join_texts, lemma_texts_push, split_words, take_chars, trimmed};
use crate::search::{join, texts, trim, words};
use crate::text::{cat2, cat4, cat5, chars_of, copy, text_range};

verus! {

/// Where searches are sent.
#[derive(Debug)]
pub struct SearchConfig {
    pub searxng_url: String,
}

/// `web_search`.
pub struct WebSearch {
    cfg: SearchConfig,
}

/// One result of a search.
#[derive(Debug)]
pub struct SxResult {
    pub title: String,
    pub url: String,
    pub content: String,
}

/// Results shown by default.
pub const DEFAULT_MAX_RESULTS: usize = 5;

/// Characters of a snippet that are shown.
pub const SNIPPET_CAP: usize = 140;

/// A byte that stands for itself in a query.
pub open spec fn plain_byte(b: u8) -> bool {
    (65 <= b <= 90) || (97 <= b <= 122) || (48 <= b <= 57) || b == 45 || b == 95 || b == 46 || b
        == 126
}

/// A hexadecimal digit in upper case.
pub open spec fn hex_upper(d: u8) -> char {
    if d < 10 {
        (48 + d) as char
    } else {
        (55 + d) as char
    }
}

/// A byte in a query.
pub open spec fn encoded_byte(b: u8) -> Seq<char> {
    if plain_byte(b) {
        seq![b as char]
    } else if b == 32 {
        seq!['+']
    } else {
        seq!['%', hex_upper(b / 16), hex_upper(b % 16)]
    }
}

/// Bytes in a query.
pub open spec fn encoded(bytes: Seq<u8>) -> Seq<char>
    decreases bytes.len(),
{
    if bytes.len() == 0 {
        Seq::empty()
    } else {
        encoded(bytes.drop_last()) + encoded_byte(bytes.last())
    }
}

/// The value of a hexadecimal digit in upper case.
pub open spec fn hex_value(c: char) -> u8 {
    if '0' <= c <= '9' {
        (c as u32 - 48) as u8
    } else {
        (c as u32 - 55) as u8
    }
}

/// The bytes that a query stands for.
pub open spec fn decoded(q: Seq<char>) -> Seq<u8>
    decreases q.len(),
{
    if q.len() == 0 {
        Seq::empty()
    } else if q[0] == '%' && q.len() >= 3 {
        seq![(hex_value(q[1]) * 16 + hex_value(q[2])) as u8] + decoded(q.skip(3))
    } else if q[0] == '+' {
        seq![32u8] + decoded(q.skip(1))
    } else {
        seq![q[0] as u8] + decoded(q.skip(1))
    }
}

proof fn lemma_decode_one(b: u8, rest: Seq<char>)
    ensures
        decoded(encoded_byte(b) + rest) == seq![b] + decoded(rest),
{
    let e = encoded_byte(b);
    let q = e + rest;
    if plain_byte(b) {
        assert(q.skip(1) =~= rest);
        assert(q[0] == b as char);
        assert((b as char) as u8 == b);
    } else if b == 32 {
        assert(q.skip(1) =~= rest);
    } else {
        assert(q.skip(3) =~= rest);
        assert(q[0] == '%' && q[1] == hex_upper(b / 16) && q[2] == hex_upper(b % 16));
        assert(b / 16 < 16 && b % 16 < 16);
        assert(hex_value(hex_upper(b / 16)) == b / 16);
        assert(hex_value(hex_upper(b % 16)) == b % 16);
    }
}

proof fn lemma_encoded_add(a: Seq<u8>, b: Seq<u8>)
    ensures
        encoded(a + b) == encoded(a) + encoded(b),
    decreases b.len(),
{
    if b.len() == 0 {
        assert(a + b =~= a);
        assert(encoded(a) + encoded(b) =~= encoded(a));
    } else {
        lemma_encoded_add(a, b.drop_last());
        assert((a + b).drop_last() =~= a + b.drop_last());
        assert(encoded(a) + encoded(b.drop_last()) + encoded_byte(b.last()) =~= encoded(a) + (
        encoded(b.drop_last()) + encoded_byte(b.last())));
    }
}

/// Decoding gives back every byte that was encoded.
pub proof fn decoding_inverts_encoding(bytes: Seq<u8>)
    ensures
        decoded(encoded(bytes)) == bytes,
    decreases bytes.len(),
{
    if bytes.len() > 0 {
        let first = seq![bytes[0]];
        let rest = bytes.drop_first();
        assert(first + rest =~= bytes);
        lemma_encoded_add(first, rest);
        assert(first.drop_last() =~= Seq::<u8>::empty());
        assert(encoded(first) =~= encoded_byte(bytes[0])) by {
            assert(encoded(first.drop_last()) =~= Seq::<char>::empty());
        }
        decoding_inverts_encoding(rest);
        lemma_decode_one(bytes[0], encoded(rest));
    }
}

/// A character that has no meaning of its own in a URL's query.
pub open spec fn harmless(c: char) -> bool {
    ('A' <= c <= 'Z') || ('a' <= c <= 'z') || ('0' <= c <= '9') || c == '-' || c == '_' || c == '.'
        || c == '~' || c == '+' || c == '%'
}

/// An encoded query cannot end the parameter in which it stands.
pub proof fn encoded_text_is_harmless(bytes: Seq<u8>)
    ensures
        forall|i: int| 0 <= i < encoded(bytes).len() ==> harmless(#[trigger] encoded(bytes)[i]),
    decreases bytes.len(),
{
    if bytes.len() > 0 {
        encoded_text_is_harmless(bytes.drop_last());
        let a = encoded(bytes.drop_last());
        let e = encoded_byte(bytes.last());
        assert forall|i: int| 0 <= i < encoded(bytes).len() implies harmless(
            #[trigger] encoded(bytes)[i],
        ) by {
            if i < a.len() {
                assert(encoded(bytes)[i] == a[i]);
            } else {
                assert(encoded(bytes)[i] == e[i - a.len()]);
            }
        }
    }
}

fn hex_upper_of(d: u8) -> (r: char)
    requires
        d < 16,
    ensures
        r == hex_upper(d),
{
    if d < 10 {
        (48 + d) as char
    } else {
        (55 + d) as char
    }
}

/// Encodes a text for use in a URL's query.
pub fn urlencoding(s: &str) -> (r: String)
    ensures
        r@ == encoded(s.spec_bytes()),
{
    let b = s.as_bytes();
    let n: usize = b.len();
    let mut out = String::new();
    let mut i: usize = 0;
    assert(b@.take(0) =~= Seq::empty());
    while i < n
        invariant
            i <= n,
            n == b@.len(),
            out@ == encoded(b@.take(i as int)),
        decreases n - i,
    {
        let x: u8 = b[i];
        let ghost before = out@;
        assert(b@.take(i as int + 1).drop_last() =~= b@.take(i as int));
        let plain: bool = (65 <= x && x <= 90) || (97 <= x && x <= 122) || (48 <= x && x <= 57) || x
            == 45 || x == 95 || x == 46 || x == 126;
        if plain {
            out.push(x as char);
        } else if x == 32 {
            out.push('+');
        } else {
            out.push('%');
            out.push(hex_upper_of(x / 16));
            out.push(hex_upper_of(x % 16));
        }
        assert(out@ =~= before + encoded_byte(x));
        i += 1;
    }
    assert(b@.take(n as int) =~= b@);
    out
}

/// A text without slashes at its end.
pub open spec fn without_slashes(s: Seq<char>) -> Seq<char>
    decreases s.len(),
{
    if s.len() > 0 && s.last() == '/' {
        without_slashes(s.drop_last())
    } else {
        s
    }
}

/// Strips the slashes at the end of a text.
pub fn strip_slashes(s: &str) -> (r: String)
    ensures
        r@ == without_slashes(s@),
{
    let v = chars_of(s);
    let mut n: usize = v.len();
    assert(s@.take(n as int) =~= s@);
    while n > 0 && v[n - 1] == '/'
        invariant
            n <= v@.len(),
            v@ == s@,
            without_slashes(s@.take(n as int)) == without_slashes(s@),
        decreases n,
    {
        assert(s@.take(n as int).drop_last() =~= s@.take(n - 1));
        n -= 1;
    }
    let r = text_range(&v, 0, n);
    assert(r@ =~= s@.take(n as int));
    r
}

/// The address of a search.
pub fn search_url(base: &str, query: &str) -> (r: String)
    ensures
        r@ == without_slashes(base@) + "/search?q="@ + encoded(query.spec_bytes())
            + "&format=json"@,
{
    let b = strip_slashes(base);
    let q = urlencoding(query);
    cat4(b.as_str(), "/search?q=", q.as_str(), "&format=json")
}

/// The error of a search that the server refused.
pub fn status_error(status: &str, body: &str) -> (r: String)
    ensures
        r@ == "SearXNG returned "@ + status@ + " — first 200 chars: "@ + (if body@.len() <= 200 {
            body@
        } else {
            body@.take(200)
        }),
{
    let head = take_chars(body, 200);
    cat4("SearXNG returned ", status, " — first 200 chars: ", head.as_str())
}

/// A snippet on one line, cut to a number of characters.
pub open spec fn snippet(s: Seq<char>, cap: nat) -> Seq<char> {
    let one_line = join(words(s), " "@);
    if one_line.len() <= cap {
        one_line
    } else {
        one_line.take(cap as int).push('…')
    }
}

/// A snippet on one line, cut to a number of characters.
pub fn trim_snippet(s: &str, cap: usize) -> (r: String)
    ensures
        r@ == snippet(s@, cap as nat),
{
    let ws = split_words(s);
    let one_line = join_texts(&ws, " ");
    let v = chars_of(one_line.as_str());
    if v.len() <= cap {
        return one_line;
    }
    let mut out = text_range(&v, 0, cap);
    assert(out@ =~= one_line@.take(cap as int));
    out.push('…');
    out
}

/// One entry of the list.
pub open spec fn result_entry(i: nat, r: SxResult) -> Seq<char> {
    dec(i + 1) + ". "@ + (if r.title@.len() == 0 {
        "(untitled)"@
    } else {
        r.title@
    }) + " — "@ + r.url@ + ("\n   "@ + snippet(r.content@, SNIPPET_CAP as nat))
}

/// How many results are shown.
pub open spec fn shown(n: nat, cap: nat) -> nat {
    if n <= cap {
        n
    } else {
        cap
    }
}

/// The results as a numbered list.
pub open spec fn results_text(results: Seq<SxResult>, cap: nat) -> Seq<char> {
    if results.len() == 0 {
        "No results."@
    } else {
        join(
            Seq::new(shown(results.len(), cap), |i: int| result_entry(i as nat, results[i])),
            "\n"@,
        )
    }
}

/// The results as a numbered list.
pub fn render_results(results: &Vec<SxResult>, cap: usize) -> (r: String)
    ensures
        r@ == results_text(results@, cap as nat),
{
    if results.len() == 0 {
        return copy("No results.");
    }
    let n: usize = if results.len() <= cap {
        results.len()
    } else {
        cap
    };
    let mut parts: Vec<String> = Vec::new();
    let mut i: usize = 0;
    let ghost all = Seq::new(
        shown(results@.len(), cap as nat),
        |i: int| result_entry(i as nat, results@[i]),
    );
    while i < n
        invariant
            i <= n <= results@.len(),
            n == all.len(),
            all == Seq::new(
                shown(results@.len(), cap as nat),
                |i: int| result_entry(i as nat, results@[i]),
            ),
            texts(parts@) == all.take(i as int),
        decreases n - i,
    {
        let x = &results[i];
        let number = decimal(i as u64 + 1);
        let title = if x.title.as_str().is_empty() {
            "(untitled)"
        } else {
            x.title.as_str()
        };
        let tail_text = trim_snippet(x.content.as_str(), SNIPPET_CAP);
        let tail = cat2("\n   ", tail_text.as_str());
        let mut entry = cat5(number.as_str(), ". ", title, " — ", x.url.as_str());
        entry.append(tail.as_str());
        proof {
            assert(entry@ == all[i as int]);
            lemma_texts_push(parts@, entry);
        }
        parts.push(entry);
        assert(texts(parts@) =~= all.take(i as int + 1));
        i += 1;
    }
    assert(texts(parts@) =~= all);
    join_texts(&parts, "\n")
}

/// The query and the number of results of a request, or what is wrong with it.
pub open spec fn search_plan(args: JVal) -> Result<(Seq<char>, usize), Seq<char>> {
    match args.field("query"@).as_text() {
        None => Err("missing 'query' (string)"@),
        Some(raw) => if trim(raw).len() == 0 {
            Err("query must not be empty"@)
        } else {
            let n = match args.field("max_results"@).as_uint() {
                Some(n) => n as usize,
                None => DEFAULT_MAX_RESULTS,
            };
            Ok(
                (
                    trim(raw),
                    if n < 1 {
                        1
                    } else if n > 10 {
                        10
                    } else {
                        n
                    },
                ),
            )
        },
    }
}

impl WebSearch {
    pub closed spec fn base(&self) -> Seq<char> {
        self.cfg.searxng_url@
    }

    pub fn new(cfg: SearchConfig) -> (r: Self)
        ensures
            r.base() == cfg.searxng_url@,
    {
        WebSearch { cfg }
    }

    /// The address of a search.
    pub fn url_for(&self, query: &str) -> (r: String)
        ensures
            r@ == without_slashes(self.base()) + "/search?q="@ + encoded(query.spec_bytes())
                + "&format=json"@,
    {
        search_url(self.cfg.searxng_url.as_str(), query)
    }

    /// Checks a request: the query and the number of results.
    pub fn call(&self, args: &Json) -> (r: Result<(String, usize), String>)
        ensures
            match r {
                Ok((q, n)) => search_plan(args@) is Ok && search_plan(args@)->Ok_0 == (q@, n),
                Err(e) => search_plan(args@) is Err && search_plan(args@)->Err_0 == e@,
            },
    {
        let query = match args.text_field("query") {
            Some(s) => trimmed(s),
            None => {
                return Err(copy("missing 'query' (string)"));
            },
        };
        if query.as_str().is_empty() {
            return Err(copy("query must not be empty"));
        }
        let asked: usize = match args.uint_field("max_results") {
            Some(n) => {
                #[verifier::truncate]
                let m: usize = n as usize;
                m
            },
            None => DEFAULT_MAX_RESULTS,
        };
        let n: usize = if asked < 1 {
            1
        } else if asked > 10 {
            10
        } else {
            asked
        };
        Ok((query, n))
    }
}

} // verus!
