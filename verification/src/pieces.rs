//! Cutting text into pieces and putting pieces together.
use vstd::prelude::*;
use vstd::string::*;
use crate::search::{
    is_space, join, lemma_next_sep, lemma_trim_end, lemma_trim_start, lemma_word_end, lines,
    lower_ascii, lower_ascii_text, next_sep, split_on, strip_cr, texts, trim, trim_end,
    trim_start, word_end, words,
};
use crate::text::{chars_of, copy, text_range};

verus! {

pub proof fn lemma_texts_push(v: Seq<String>, s: String)
    ensures
        texts(v.push(s)) == texts(v).push(s@),
{
    assert(texts(v.push(s)) =~= texts(v).push(s@));
}

/// The number of pieces is never zero.
pub proof fn lemma_split_on_nonempty(s: Seq<char>, sep: char)
    ensures
        split_on(s, sep).len() > 0,
    decreases s.len(),
{
    lemma_next_sep(s, sep, 0);
}

/// Position of the first `sep` at or after `from`, or the length.
pub fn next_sep_pos(v: &Vec<char>, sep: char, from: usize) -> (r: usize)
    requires
        from <= v@.len(),
    ensures
        r == next_sep(v@, sep, from as int),
        from <= r <= v@.len(),
{
    let mut i: usize = from;
    while i < v.len()
        invariant
            from <= i <= v@.len(),
            next_sep(v@, sep, from as int) == next_sep(v@, sep, i as int),
        decreases v@.len() - i,
    {
        if v[i] == sep {
            return i;
        }
        i += 1;
    }
    i
}

proof fn lemma_next_sep_skip(s: Seq<char>, sep: char, start: int)
    requires
        0 <= start <= s.len(),
    ensures
        next_sep(s.skip(start), sep, 0) == next_sep(s, sep, start) - start,
{
    lemma_next_sep(s, sep, start);
    lemma_next_sep(s.skip(start), sep, 0);
    let a = next_sep(s.skip(start), sep, 0);
    let b = next_sep(s, sep, start);
    if a < b - start {
        assert(s.skip(start)[a] == s[a + start]);
    } else if a > b - start {
        assert(s.skip(start)[b - start] == s[b]);
    }
}

/// The pieces between separators.
pub fn split(s: &str, sep: char) -> (r: Vec<String>)
    ensures
        texts(r@) == split_on(s@, sep),
{
    let v = chars_of(s);
    let mut out: Vec<String> = Vec::new();
    let mut start: usize = 0;
    assert(s@.skip(0) =~= s@);
    assert(texts(out@) + split_on(s@, sep) =~= split_on(s@, sep));
    loop
        invariant
            v@ == s@,
            start <= v@.len(),
            texts(out@) + split_on(s@.skip(start as int), sep) == split_on(s@, sep),
        decreases v@.len() - start,
    {
        let k: usize = next_sep_pos(&v, sep, start);
        let piece = text_range(&v, start, k);
        let ghost before = texts(out@);
        let ghost rest = s@.skip(start as int);
        proof {
            lemma_next_sep_skip(s@, sep, start as int);
            lemma_texts_push(out@, piece);
            assert(rest.take(k - start) =~= piece@);
        }
        out.push(piece);
        if k < v.len() {
            proof {
                assert(rest.skip(k - start + 1) =~= s@.skip(k + 1));
                assert(before + (seq![piece@] + split_on(s@.skip(k + 1), sep)) =~= texts(out@)
                    + split_on(s@.skip(k + 1), sep));
            }
            start = k + 1;
        } else {
            proof {
                assert(rest =~= piece@);
                assert(before + seq![piece@] =~= before.push(piece@));
            }
            return out;
        }
    }
}

/// The lines of a text.
pub fn split_lines(s: &str) -> (r: Vec<String>)
    ensures
        texts(r@) == lines(s@),
{
    let parts = split(s, '\n');
    let ghost all = texts(parts@);
    let ghost ended = all.drop_last().map_values(|p: Seq<char>| strip_cr(p));
    proof {
        lemma_split_on_nonempty(s@, '\n');
        assert(parts@.len() == all.len());
    }
    let mut out: Vec<String> = Vec::new();
    let n: usize = parts.len() - 1;
    let mut i: usize = 0;
    while i < n
        invariant
            i <= n,
            n + 1 == parts@.len(),
            all == texts(parts@),
            ended == all.drop_last().map_values(|p: Seq<char>| strip_cr(p)),
            texts(out@) == ended.take(i as int),
        decreases n - i,
    {
        let t = without_cr(parts[i].as_str());
        assert(all[i as int] == parts@[i as int]@);
        proof {
            lemma_texts_push(out@, t);
        }
        out.push(t);
        assert(texts(out@) =~= ended.take(i as int + 1));
        i += 1;
    }
    assert(texts(out@) =~= ended);
    assert(all.last() == parts@[n as int]@);
    if !parts[n].as_str().is_empty() {
        let t = copy(parts[n].as_str());
        proof {
            lemma_texts_push(out@, t);
        }
        out.push(t);
    }
    out
}

/// The text without one trailing carriage return.
pub fn without_cr(s: &str) -> (r: String)
    ensures
        r@ == strip_cr(s@),
{
    let v = chars_of(s);
    let n: usize = v.len();
    if n > 0 && v[n - 1] == '\r' {
        let r = text_range(&v, 0, n - 1);
        assert(r@ =~= s@.drop_last());
        r
    } else {
        s.to_owned()
    }
}

/// The pieces with `sep` between them.
pub fn join_texts(parts: &Vec<String>, sep: &str) -> (r: String)
    ensures
        r@ == join(texts(parts@), sep@),
{
    let mut out = String::new();
    let n: usize = parts.len();
    let mut i: usize = 0;
    let ghost all = texts(parts@);
    while i < n
        invariant
            i <= n,
            n == parts@.len(),
            all == texts(parts@),
            out@ == join(all.take(i as int), sep@),
        decreases n - i,
    {
        proof {
            assert(all.take(i as int + 1).drop_last() =~= all.take(i as int));
            assert(all.take(i as int + 1).last() == parts@[i as int]@);
        }
        if i > 0 {
            out.append(sep);
        } else {
            assert(out@ + parts@[0]@ =~= parts@[0]@);
        }
        out.append(parts[i].as_str());
        i += 1;
    }
    assert(all.take(n as int) =~= all);
    out
}

pub fn space(c: char) -> (r: bool)
    ensures
        r == is_space(c),
{
    let u: u32 = c as u32;
    (0x9 <= u && u <= 0xd) || u == 0x20 || u == 0x85 || u == 0xa0 || u == 0x1680 || (0x2000 <= u
        && u <= 0x200a) || u == 0x2028 || u == 0x2029 || u == 0x202f || u == 0x205f || u == 0x3000
}

/// The text without leading white space.
pub fn trimmed_start(s: &str) -> (r: String)
    ensures
        r@ == trim_start(s@),
{
    let v = chars_of(s);
    let mut i: usize = 0;
    while i < v.len() && space(v[i])
        invariant
            i <= v@.len(),
            v@ == s@,
            forall|j: int| 0 <= j < i ==> is_space(s@[j]),
        decreases v@.len() - i,
    {
        i += 1;
    }
    proof {
        lemma_trim_start(s@, i as int);
    }
    text_range(&v, i, v.len())
}

/// The text without trailing white space.
pub fn trimmed_end(s: &str) -> (r: String)
    ensures
        r@ == trim_end(s@),
{
    let v = chars_of(s);
    let mut i: usize = v.len();
    while i > 0 && space(v[i - 1])
        invariant
            i <= v@.len(),
            v@ == s@,
            forall|j: int| i <= j < v@.len() ==> is_space(s@[j]),
        decreases i,
    {
        i -= 1;
    }
    proof {
        lemma_trim_end(s@, i as int);
    }
    let r = text_range(&v, 0, i);
    assert(r@ =~= s@.take(i as int));
    r
}

/// The text without white space at either end.
pub fn trimmed(s: &str) -> (r: String)
    ensures
        r@ == trim(s@),
{
    let t = trimmed_start(s);
    trimmed_end(t.as_str())
}

proof fn lemma_words_skip_spaces(s: Seq<char>, i: int)
    requires
        0 <= i <= s.len(),
        forall|j: int| 0 <= j < i ==> is_space(s[j]),
    ensures
        words(s) == words(s.skip(i)),
    decreases i,
{
    if i > 0 {
        assert(is_space(s[0]));
        lemma_words_skip_spaces(s.drop_first(), i - 1);
        assert(s.drop_first().skip(i - 1) =~= s.skip(i));
    } else {
        assert(s.skip(0) =~= s);
    }
}

proof fn lemma_word_end_is(s: Seq<char>, i: int, k: int)
    requires
        0 <= i <= k <= s.len(),
        forall|j: int| i <= j < k ==> !is_space(s[j]),
        k < s.len() ==> is_space(s[k]),
    ensures
        word_end(s, i) == k,
{
    lemma_word_end(s, i);
}

/// The words of a text.
pub fn split_words(s: &str) -> (r: Vec<String>)
    ensures
        texts(r@) == words(s@),
{
    let v = chars_of(s);
    let mut out: Vec<String> = Vec::new();
    let mut i: usize = 0;
    assert(s@.skip(0) =~= s@);
    assert(texts(out@) + words(s@) =~= words(s@));
    while i < v.len()
        invariant
            v@ == s@,
            i <= v@.len(),
            texts(out@) + words(s@.skip(i as int)) == words(s@),
        decreases v@.len() - i,
    {
        let ghost rest = s@.skip(i as int);
        if space(v[i]) {
            proof {
                assert(is_space(rest[0]));
                lemma_words_skip_spaces(rest, 1);
                assert(rest.skip(1) =~= s@.skip(i + 1));
            }
            i += 1;
        } else {
            let mut k: usize = i;
            while k < v.len() && !space(v[k])
                invariant
                    v@ == s@,
                    i <= k <= v@.len(),
                    forall|j: int| i <= j < k ==> !is_space(s@[j]),
                decreases v@.len() - k,
            {
                k += 1;
            }
            let word = text_range(&v, i, k);
            let ghost before = texts(out@);
            proof {
                assert(!is_space(s@[i as int]));
                assert(!is_space(rest[0]));
                lemma_word_end_is(rest, 0, k - i);
                assert(rest.take(k - i) =~= word@);
                assert(rest.skip(k - i) =~= s@.skip(k as int));
                lemma_texts_push(out@, word);
                assert(before + (seq![word@] + words(s@.skip(k as int))) =~= before.push(word@)
                    + words(s@.skip(k as int)));
            }
            out.push(word);
            i = k;
        }
    }
    proof {
        assert(s@.skip(i as int) =~= Seq::<char>::empty());
        assert(texts(out@) + Seq::<Seq<char>>::empty() =~= texts(out@));
    }
    out
}

/// An ASCII letter in lower case.
pub fn to_lower_ascii(c: char) -> (r: char)
    ensures
        r == lower_ascii(c),
{
    if 'A' <= c && c <= 'Z' {
        let b: u8 = c as u8;
        assert(b == c as u32);
        (b + 32) as char
    } else {
        c
    }
}

/// The text with its ASCII letters in lower case.
pub fn lower_ascii_of(s: &str) -> (r: String)
    ensures
        r@ == lower_ascii_text(s@),
{
    let v = chars_of(s);
    let mut out = String::new();
    let n: usize = v.len();
    let mut i: usize = 0;
    while i < n
        invariant
            i <= n,
            n == v@.len(),
            v@ == s@,
            out@ == lower_ascii_text(s@).take(i as int),
        decreases n - i,
    {
        out.push(to_lower_ascii(v[i]));
        assert(out@ =~= lower_ascii_text(s@).take(i as int + 1));
        i += 1;
    }
    assert(out@ =~= lower_ascii_text(s@));
    out
}

/// The first `n` characters.
pub fn take_chars(s: &str, n: usize) -> (r: String)
    ensures
        r@ == (if s@.len() <= n { s@ } else { s@.take(n as int) }),
{
    let v = chars_of(s);
    if v.len() <= n {
        s.to_owned()
    } else {
        let r = text_range(&v, 0, n);
        assert(r@ =~= s@.take(n as int));
        r
    }
}

/// Whether one of the texts equals `s`.
pub fn listed(v: &Vec<String>, s: &str) -> (r: bool)
    ensures
        r == texts(v@).contains(s@),
{
    let n: usize = v.len();
    let mut i: usize = 0;
    while i < n
        invariant
            i <= n,
            n == v@.len(),
            forall|j: int| 0 <= j < i ==> v@[j]@ != s@,
        decreases n - i,
    {
        if crate::text::same(v[i].as_str(), s) {
            assert(texts(v@)[i as int] == s@);
            return true;
        }
        i += 1;
    }
    assert forall|j: int| 0 <= j < texts(v@).len() implies texts(v@)[j] != s@ by {
        assert(texts(v@)[j] == v@[j]@);
    }
    false
}

/// A copy of a vector of strings.
pub fn copy_texts(v: &Vec<String>) -> (r: Vec<String>)
    ensures
        texts(r@) == texts(v@),
        r@.len() == v@.len(),
{
    let mut out: Vec<String> = Vec::new();
    let n: usize = v.len();
    let mut i: usize = 0;
    while i < n
        invariant
            i <= n,
            n == v@.len(),
            texts(out@) == texts(v@).take(i as int),
            out@.len() == i,
        decreases n - i,
    {
        let s = v[i].as_str().to_owned();
        proof {
            lemma_texts_push(out@, s);
        }
        out.push(s);
        assert(texts(out@) =~= texts(v@).take(i as int + 1));
        i += 1;
    }
    assert(texts(out@) =~= texts(v@));
    out
}

} // verus!
