//! Strings as sequences of characters: conversion, comparison, concatenation,
//! byte lengths and truncation on a character boundary.
use vstd::prelude::*;
use vstd::string::*;
use vstd::utf8::*;

verus! {

/// `String::push` appends one character.
pub assume_specification[ String::push ](s: &mut String, c: char)
    ensures
        final(s)@ == old(s)@.push(c),
;

/// Number of bytes of the UTF-8 encoding of one character.
pub open spec fn char_width(c: char) -> nat {
    if c as u32 <= 0x7f {
        1
    } else if c as u32 <= 0x7ff {
        2
    } else if c as u32 <= 0xffff {
        3
    } else {
        4
    }
}

/// Number of bytes of the UTF-8 encoding of a text.
pub open spec fn byte_len(s: Seq<char>) -> nat
    decreases s.len(),
{
    if s.len() == 0 {
        0
    } else {
        byte_len(s.drop_last()) + char_width(s.last())
    }
}

/// The number of leading characters that fit into `cap` bytes.
pub open spec fn fit(s: Seq<char>, cap: nat) -> nat
    decreases s.len(),
{
    if s.len() == 0 || byte_len(s) <= cap {
        s.len()
    } else {
        fit(s.drop_last(), cap)
    }
}

/// The longest prefix of `s` whose encoding has at most `cap` bytes.
pub open spec fn clip(s: Seq<char>, cap: nat) -> Seq<char> {
    s.take(fit(s, cap) as int)
}

pub proof fn lemma_byte_len_push(s: Seq<char>, c: char)
    ensures
        byte_len(s.push(c)) == byte_len(s) + char_width(c),
{
    assert(s.push(c).drop_last() =~= s);
}

pub proof fn lemma_byte_len_add(a: Seq<char>, b: Seq<char>)
    ensures
        byte_len(a + b) == byte_len(a) + byte_len(b),
    decreases b.len(),
{
    if b.len() == 0 {
        assert(a + b =~= a);
    } else {
        lemma_byte_len_add(a, b.drop_last());
        assert((a + b).drop_last() =~= a + b.drop_last());
    }
}

pub proof fn lemma_byte_len_take(s: Seq<char>, i: int, j: int)
    requires
        0 <= i <= j <= s.len(),
    ensures
        byte_len(s.take(i)) <= byte_len(s.take(j)),
        byte_len(s.take(j)) <= byte_len(s),
        s.len() <= byte_len(s),
        j - i <= byte_len(s.take(j)) - byte_len(s.take(i)) <= 4 * (j - i),
{
    lemma_byte_len_add(s.take(i), s.subrange(i, j));
    assert(s.take(i) + s.subrange(i, j) =~= s.take(j));
    lemma_byte_len_add(s.take(j), s.skip(j));
    assert(s.take(j) + s.skip(j) =~= s);
    lemma_byte_len_bounds(s.subrange(i, j));
    lemma_byte_len_bounds(s);
}

pub proof fn lemma_byte_len_bounds(s: Seq<char>)
    ensures
        s.len() <= byte_len(s) <= 4 * s.len(),
    decreases s.len(),
{
    if s.len() > 0 {
        lemma_byte_len_bounds(s.drop_last());
    }
}

/// `byte_len` counts the bytes that the UTF-8 encoder produces.
pub proof fn lemma_byte_len_is_encoding(s: Seq<char>)
    ensures
        byte_len(s) == encode_utf8(s).len(),
    decreases s.len(),
{
    if s.len() > 0 {
        let rest = s.drop_first();
        lemma_byte_len_is_encoding(rest);
        lemma_byte_len_add(seq![s[0]], rest);
        assert(seq![s[0]] + rest =~= s);
        lemma_byte_len_push(Seq::<char>::empty(), s[0]);
        assert(Seq::<char>::empty().push(s[0]) =~= seq![s[0]]);
        char_is_scalar(s[0]);
        assert(encode_scalar(s[0] as u32).len() == char_width(s[0]));
    }
}

/// What `fit` returns is the largest prefix length within the cap.
pub proof fn lemma_fit(s: Seq<char>, cap: nat)
    ensures
        fit(s, cap) <= s.len(),
        byte_len(s.take(fit(s, cap) as int)) <= cap,
        forall|k: int|
            #![trigger s.take(k)]
            0 <= k <= s.len() && byte_len(s.take(k)) <= cap ==> k <= fit(s, cap),
    decreases s.len(),
{
    assert(s.take(s.len() as int) =~= s);
    if s.len() > 0 && byte_len(s) > cap {
        let p = s.drop_last();
        lemma_fit(p, cap);
        assert(p.take(fit(p, cap) as int) =~= s.take(fit(s, cap) as int));
        assert forall|k: int|
            #![trigger s.take(k)]
            0 <= k <= s.len() && byte_len(s.take(k)) <= cap implies k <= fit(s, cap) by {
            if k < s.len() {
                assert(p.take(k) =~= s.take(k));
            }
        }
    }
}

/// A prefix length is `fit` when it is within the cap and one more character is not.
pub proof fn lemma_fit_unique(s: Seq<char>, cap: nat, k: int)
    requires
        0 <= k <= s.len(),
        byte_len(s.take(k)) <= cap,
        k < s.len() ==> byte_len(s.take(k + 1)) > cap,
    ensures
        fit(s, cap) == k,
{
    lemma_fit(s, cap);
    let f = fit(s, cap) as int;
    if f > k {
        lemma_byte_len_take(s, k + 1, f);
    }
}

/// The characters of a string.
pub fn chars_of(s: &str) -> (r: Vec<char>)
    ensures
        r@ == s@,
{
    let mut out: Vec<char> = Vec::new();
    for c in it: s.chars()
        invariant
            it.seq() == s@,
            out@ == s@.take(it.index() as int),
    {
        out.push(c);
        assert(out@ =~= s@.take(it.index() as int + 1));
    }
    assert(out@ =~= s@);
    out
}

/// The string made of the given characters.
pub fn text_of(v: &[char]) -> (r: String)
    ensures
        r@ == v@,
{
    let mut out = String::new();
    let n: usize = v.len();
    let mut i: usize = 0;
    while i < n
        invariant
            i <= n,
            n == v@.len(),
            out@ == v@.take(i as int),
        decreases n - i,
    {
        out.push(v[i]);
        assert(out@ =~= v@.take(i as int + 1));
        i += 1;
    }
    assert(out@ =~= v@);
    out
}

/// The string made of the characters from `a` up to `b`.
pub fn text_range(v: &Vec<char>, a: usize, b: usize) -> (r: String)
    requires
        a <= b <= v@.len(),
    ensures
        r@ == v@.subrange(a as int, b as int),
{
    text_of(vstd::slice::slice_subrange(v.as_slice(), a, b))
}

/// The characters from `a` up to `b`.
pub fn chars_range(v: &Vec<char>, a: usize, b: usize) -> (r: Vec<char>)
    requires
        a <= b <= v@.len(),
    ensures
        r@ == v@.subrange(a as int, b as int),
{
    let mut out: Vec<char> = Vec::new();
    let mut i: usize = a;
    while i < b
        invariant
            a <= i <= b <= v@.len(),
            out@ == v@.subrange(a as int, i as int),
        decreases b - i,
    {
        out.push(v[i]);
        assert(out@ =~= v@.subrange(a as int, i as int + 1));
        i += 1;
    }
    out
}

/// Whether two strings hold the same text.
pub fn same(a: &str, b: &str) -> (r: bool)
    ensures
        r == (a@ == b@),
{
    let x = a.as_bytes();
    let y = b.as_bytes();
    proof {
        encode_utf8_decode_utf8(a@);
        encode_utf8_decode_utf8(b@);
    }
    if x.len() != y.len() {
        return false;
    }
    let n: usize = x.len();
    let mut i: usize = 0;
    while i < n
        invariant
            i <= n,
            n == x@.len(),
            n == y@.len(),
            x@ == encode_utf8(a@),
            y@ == encode_utf8(b@),
            forall|k: int| 0 <= k < i ==> x@[k] == y@[k],
        decreases n - i,
    {
        if x[i] != y[i] {
            return false;
        }
        i += 1;
    }
    assert(x@ =~= y@);
    true
}

/// A copy of a string.
pub fn copy(s: &str) -> (r: String)
    ensures
        r@ == s@,
{
    s.to_owned()
}

pub fn cat2(a: &str, b: &str) -> (r: String)
    ensures
        r@ == a@ + b@,
{
    let mut s = a.to_owned();
    s.append(b);
    s
}

pub fn cat3(a: &str, b: &str, c: &str) -> (r: String)
    ensures
        r@ == a@ + b@ + c@,
{
    let mut s = cat2(a, b);
    s.append(c);
    s
}

pub fn cat4(a: &str, b: &str, c: &str, d: &str) -> (r: String)
    ensures
        r@ == a@ + b@ + c@ + d@,
{
    let mut s = cat3(a, b, c);
    s.append(d);
    s
}

pub fn cat5(a: &str, b: &str, c: &str, d: &str, e: &str) -> (r: String)
    ensures
        r@ == a@ + b@ + c@ + d@ + e@,
{
    let mut s = cat4(a, b, c, d);
    s.append(e);
    s
}

/// The number of bytes in a string.
pub fn size(s: &str) -> (r: usize)
    ensures
        r == byte_len(s@),
{
    proof {
        lemma_byte_len_is_encoding(s@);
    }
    s.as_bytes().len()
}

/// Exact width of a character's encoding.
pub fn width_of(c: char) -> (r: usize)
    ensures
        r == char_width(c),
{
    let u: u32 = c as u32;
    if u <= 0x7f {
        1
    } else if u <= 0x7ff {
        2
    } else if u <= 0xffff {
        3
    } else {
        4
    }
}

/// How many of the leading characters fit into `cap` bytes.
pub fn fit_chars(v: &Vec<char>, cap: usize) -> (r: usize)
    ensures
        r == fit(v@, cap as nat),
        r <= v@.len(),
{
    let n: usize = v.len();
    let mut i: usize = 0;
    let mut used: usize = 0;
    proof {
        assert(v@.take(0) =~= Seq::<char>::empty());
        lemma_fit(v@, cap as nat);
    }
    while i < n
        invariant
            i <= n,
            n == v@.len(),
            used == byte_len(v@.take(i as int)),
            used <= cap,
        decreases n - i,
    {
        let w: usize = width_of(v[i]);
        proof {
            assert(v@.take(i as int + 1) =~= v@.take(i as int).push(v@[i as int]));
            lemma_byte_len_push(v@.take(i as int), v@[i as int]);
        }
        if w > cap - used {
            proof {
                lemma_fit_unique(v@, cap as nat, i as int);
            }
            return i;
        }
        used += w;
        i += 1;
    }
    proof {
        lemma_fit_unique(v@, cap as nat, n as int);
    }
    n
}

/// The longest prefix of `s` that takes at most `cap` bytes.
pub fn clip_text(s: &str, cap: usize) -> (r: String)
    ensures
        r@ == clip(s@, cap as nat),
{
    let v = chars_of(s);
    let k: usize = fit_chars(&v, cap);
    let r = text_range(&v, 0, k);
    assert(r@ =~= s@.take(k as int));
    r
}

/// A clipped text is within the cap, is a prefix, and cannot be extended.
pub proof fn clip_is_longest_prefix(s: Seq<char>, cap: nat)
    ensures
        byte_len(clip(s, cap)) <= cap,
        clip(s, cap).len() <= s.len(),
        clip(s, cap) == s.take(clip(s, cap).len() as int),
        byte_len(s) <= cap ==> clip(s, cap) == s,
        clip(s, cap).len() < s.len() ==> byte_len(s.take(clip(s, cap).len() as int + 1)) > cap,
{
    lemma_fit(s, cap);
    assert(s.take(s.len() as int) =~= s);
    let k = fit(s, cap) as int;
    assert(clip(s, cap).len() == k);
    if k < s.len() && byte_len(s.take(k + 1)) <= cap {
        assert(k + 1 <= fit(s, cap));
    }
}

/// A text in double quotes with escapes, as a debug listing shows it.
pub uninterp spec fn quoted(s: Seq<char>) -> Seq<char>;

/// The `Debug` form of a `str`: the text in double quotes, with control
/// characters, quotes and backslashes escaped. It depends on the text alone.
#[verifier::external_body]
pub(crate) fn quote(s: &str) -> (r: String)
    ensures
        r@ == quoted(s@),
{
    format!("{:?}", s)
}

} // verus!
