//! What cutting, joining, trimming and replacing do to a text.
use vstd::prelude::*;
use crate::decimal::{
    dec, dec_int, dec_pad, is_digit, is_numeral, numeral_value, pad_zeros, read_int, read_uint,
};
use crate::paths::{joined, untilded};
use crate::search::{
    at, find_from, is_space, join, lemma_find_from, lemma_find_is, lemma_find_none, lemma_next_sep,
    lemma_trim_end, lemma_trim_start, lemma_word_end, lines, lower_ascii_text, next_sep,
    replace_all, split_on, starts_with, strip_cr, trim, trim_start, word_end, words,
};

verus! {

/// A text has no character of a kind.
pub open spec fn free_of(s: Seq<char>, c: char) -> bool {
    forall|i: int| 0 <= i < s.len() ==> #[trigger] s[i] != c
}

proof fn lemma_next_sep_is(s: Seq<char>, sep: char, i: int, k: int)
    requires
        0 <= i <= k <= s.len(),
        forall|j: int| i <= j < k ==> #[trigger] s[j] != sep,
        k < s.len() ==> s[k] == sep,
    ensures
        next_sep(s, sep, i) == k,
{
    lemma_next_sep(s, sep, i);
    let n = next_sep(s, sep, i);
    if n < k {
        assert(s[n] == sep);
    } else if n > k {
        assert(s[k] != sep);
    }
}

/// Cutting a text at a character: a text without it is one piece, and what stands
/// before its first occurrence is the first piece.
pub proof fn a_text_is_cut_at_each_separator(a: Seq<char>, b: Seq<char>, sep: char)
    requires
        free_of(a, sep),
    ensures
        split_on(a, sep) == seq![a],
        split_on(a.push(sep) + b, sep) == seq![a] + split_on(b, sep),
{
    lemma_next_sep_is(a, sep, 0, a.len() as int);
    let s = a.push(sep) + b;
    assert forall|j: int| 0 <= j < a.len() implies #[trigger] s[j] != sep by {
        assert(s[j] == a[j]);
    }
    lemma_next_sep_is(s, sep, 0, a.len() as int);
    assert(s.take(a.len() as int) =~= a);
    assert(s.skip(a.len() as int + 1) =~= b);
}

proof fn lemma_join_first(a: Seq<char>, v: Seq<Seq<char>>, sep: Seq<char>)
    requires
        v.len() > 0,
    ensures
        join(seq![a] + v, sep) == a + sep + join(v, sep),
    decreases v.len(),
{
    let all = seq![a] + v;
    assert(all.drop_last() =~= seq![a] + v.drop_last());
    assert(all.last() == v.last());
    if v.len() == 1 {
        assert(all.drop_last() =~= seq![a]);
        assert(join(all.drop_last(), sep) == a);
    } else {
        lemma_join_first(a, v.drop_last(), sep);
        assert(join(all, sep) =~= a + sep + join(v, sep));
    }
}

/// The pieces of a text, joined again, are the text; none of them holds the separator.
pub proof fn joining_undoes_cutting(s: Seq<char>, sep: char)
    ensures
        join(split_on(s, sep), seq![sep]) == s,
        split_on(s, sep).len() > 0,
        forall|k: int|
            0 <= k < split_on(s, sep).len() ==> free_of(#[trigger] split_on(s, sep)[k], sep),
    decreases s.len(),
{
    lemma_next_sep(s, sep, 0);
    let i = next_sep(s, sep, 0);
    let v = split_on(s, sep);
    if i < s.len() {
        let rest = s.skip(i + 1);
        joining_undoes_cutting(rest, sep);
        lemma_join_first(s.take(i), split_on(rest, sep), seq![sep]);
        assert(s.take(i) + seq![sep] + rest =~= s);
        assert forall|k: int| 0 <= k < v.len() implies free_of(#[trigger] v[k], sep) by {
            if k > 0 {
                assert(v[k] == split_on(rest, sep)[k - 1]);
            }
        }
    } else {
        assert(v =~= seq![s]);
    }
}

/// The lines of a text: each ends at its line feed, or at a carriage return and a line
/// feed; what follows the last one is a line unless it is empty.
pub proof fn a_text_is_read_line_by_line(a: Seq<char>, b: Seq<char>)
    requires
        free_of(a, '\n'),
    ensures
        lines(Seq::<char>::empty()) == Seq::<Seq<char>>::empty(),
        a.len() > 0 ==> lines(a) == seq![a],
        a.len() == 0 || a.last() != '\r' ==> lines(a.push('\n') + b) == seq![a] + lines(b),
        lines(a.push('\r').push('\n') + b) == seq![a] + lines(b),
{
    let none = Seq::<char>::empty();
    a_text_is_cut_at_each_separator(none, none, '\n');
    a_text_is_cut_at_each_separator(a, b, '\n');
    assert(split_on(none, '\n').drop_last() =~= Seq::<Seq<char>>::empty());
    assert(lines(none) =~= Seq::<Seq<char>>::empty());
    if a.len() > 0 {
        assert(lines(a) =~= seq![a]);
    }
    lemma_lines_step(a, b);
    let r = a.push('\r');
    assert(free_of(r, '\n'));
    lemma_lines_step(r, b);
    assert(r.drop_last() =~= a);
}

proof fn lemma_lines_step(a: Seq<char>, b: Seq<char>)
    requires
        free_of(a, '\n'),
    ensures
        lines(a.push('\n') + b) == seq![strip_cr(a)] + lines(b),
{
    a_text_is_cut_at_each_separator(a, b, '\n');
    joining_undoes_cutting(b, '\n');
    let rest = split_on(b, '\n');
    let all = seq![a] + rest;
    assert(all.drop_last() =~= seq![a] + rest.drop_last());
    assert(all.last() == rest.last());
    assert(lines(a.push('\n') + b) =~= seq![strip_cr(a)] + lines(b));
}

/// Replacing goes from left to right: a text without the pattern stays as it is, and
/// the first occurrence gives way to the replacement, which is not looked at again.
pub proof fn each_occurrence_is_replaced_once(
    a: Seq<char>,
    from: Seq<char>,
    b: Seq<char>,
    to: Seq<char>,
)
    requires
        from.len() > 0,
        forall|i: int| 0 <= i < a.len() ==> !at(a + from + b, i, from),
    ensures
        replace_all(a + from + b, from, to) == a + to + replace_all(b, from, to),
        !crate::search::has(a, from) ==> replace_all(a, from, to) == a,
{
    let s = a + from + b;
    let n = a.len() as int;
    assert(s.subrange(n, n + from.len()) =~= from);
    lemma_find_is(s, from, 0, n);
    assert(s.take(n) =~= a);
    assert(s.skip(n + from.len()) =~= b);
    if !crate::search::has(a, from) {
        lemma_find_none(a, from, 0);
    }
}

/// All of a text is white space.
pub open spec fn blank(s: Seq<char>) -> bool {
    forall|i: int| 0 <= i < s.len() ==> is_space(#[trigger] s[i])
}

/// Trimming takes the white space off both ends and nothing else.
pub proof fn trimming_bares_the_text(a: Seq<char>, m: Seq<char>, b: Seq<char>)
    requires
        blank(a),
        blank(b),
        m.len() > 0 ==> !is_space(m[0]) && !is_space(m.last()),
    ensures
        trim(a + m + b) == m,
{
    let s = a + m + b;
    if m.len() == 0 {
        assert forall|j: int| 0 <= j < s.len() implies is_space(s[j]) by {
            if j >= a.len() {
                assert(s[j] == b[j - a.len()]);
            }
        }
        lemma_trim_start(s, s.len() as int);
        assert(trim_start(s) =~= Seq::<char>::empty());
        lemma_trim_end(Seq::<char>::empty(), 0);
        assert(trim(s) =~= m);
    } else {
        assert forall|j: int| 0 <= j < a.len() implies is_space(s[j]) by {
            assert(s[j] == a[j]);
        }
        assert(s[a.len() as int] == m[0]);
        lemma_trim_start(s, a.len() as int);
        let t = m + b;
        assert(s.skip(a.len() as int) =~= t);
        assert forall|j: int| m.len() <= j < t.len() implies is_space(t[j]) by {
            assert(t[j] == b[j - m.len()]);
        }
        assert(t[m.len() - 1] == m.last());
        lemma_trim_end(t, m.len() as int);
        assert(t.take(m.len() as int) =~= m);
    }
}

/// A text without white space.
pub open spec fn solid(s: Seq<char>) -> bool {
    forall|i: int| 0 <= i < s.len() ==> !is_space(#[trigger] s[i])
}

/// The words of a text are its longest runs without white space, in order: a run is one
/// word, and white space between two texts keeps their words apart.
pub proof fn words_are_runs_without_space(w: Seq<char>, a: Seq<char>, c: char, b: Seq<char>)
    requires
        w.len() > 0,
        solid(w),
        is_space(c),
    ensures
        words(Seq::<char>::empty()) == Seq::<Seq<char>>::empty(),
        words(w) == seq![w],
        words(a.push(c) + b) == words(a) + words(b),
    decreases a.len(),
{
    assert(words(Seq::<char>::empty()) =~= Seq::<Seq<char>>::empty());
    lemma_word_end(w, 0);
    if word_end(w, 0) < w.len() {
        assert(is_space(w[word_end(w, 0)]));
    }
    assert(w.take(w.len() as int) =~= w);
    assert(w.skip(w.len() as int) =~= Seq::<char>::empty());
    assert(words(w) =~= seq![w]);
    lemma_words_apart(a, c, b);
}

proof fn lemma_words_apart(a: Seq<char>, c: char, b: Seq<char>)
    requires
        is_space(c),
    ensures
        words(a.push(c) + b) == words(a) + words(b),
    decreases a.len(),
{
    let s = a.push(c) + b;
    if a.len() == 0 {
        assert(s[0] == c);
        assert(s.drop_first() =~= b);
        assert(words(a) + words(b) =~= words(b));
    } else if is_space(a[0]) {
        assert(s[0] == a[0]);
        assert(s.drop_first() =~= a.drop_first().push(c) + b);
        lemma_words_apart(a.drop_first(), c, b);
    } else {
        lemma_word_end(a, 0);
        lemma_word_end(s, 0);
        let k = word_end(a, 0);
        let n = word_end(s, 0);
        assert(s[a.len() as int] == c);
        assert(forall|j: int| 0 <= j < a.len() ==> s[j] == a[j]);
        assert(n == k) by {
            if n < k {
                assert(is_space(a[n]));
            }
            if n > k {
                assert(is_space(s[k]));
            }
        }
        assert(k > 0) by {
            assert(!is_space(a[0]));
        }
        assert(s.take(k) =~= a.take(k));
        assert(s.skip(k) =~= a.skip(k).push(c) + b);
        lemma_words_apart(a.skip(k), c, b);
        assert(words(s) =~= words(a) + words(b));
    }
}

/// A path below the home directory is put under it; any other stays as it is.
pub proof fn only_a_leading_tilde_stands_for_home(path: Seq<char>, home: Seq<char>)
    ensures
        untilded("~/"@ + path, Some(home)) == joined(home, path),
        untilded(path, None) == path,
        path.len() == 0 || path[0] != '~' || path.len() == 1 || path[1] != '/' ==> untilded(
            path,
            Some(home),
        ) == path,
{
    reveal_strlit("~/");
    let p = "~/"@ + path;
    assert(p.subrange(0, 2) =~= "~/"@);
    assert(p.skip(2) =~= path);
    if starts_with(path, "~/"@) {
        assert(path.subrange(0, 2)[0] == '~');
        assert(path.subrange(0, 2)[1] == '/');
    }
}

/// A path below a directory is the directory, one slash and the path; an absolute one
/// stands for itself.
pub proof fn paths_are_joined_by_one_slash(base: Seq<char>, rest: Seq<char>)
    requires
        base.len() > 0,
    ensures
        rest.len() > 0 && rest[0] == '/' ==> joined(base, rest) == rest,
        (rest.len() == 0 || rest[0] != '/') && base.last() == '/' ==> joined(base, rest) == base
            + rest,
        (rest.len() == 0 || rest[0] != '/') && base.last() != '/' ==> joined(base, rest)
            == base.push('/') + rest,
{
    reveal_strlit("/");
    if rest.len() > 0 {
        assert(rest.subrange(0, 1)[0] == rest[0]);
        if rest[0] == '/' {
            assert(rest.subrange(0, 1) =~= "/"@);
        }
    }
    let n = base.len() - 1;
    assert(base.subrange(n, n + 1)[0] == base.last());
    if base.last() == '/' {
        assert(base.subrange(n, n + 1) =~= "/"@);
    }
    assert(base + "/"@ + rest =~= base.push('/') + rest);
}

proof fn lemma_zeros(k: nat, s: Seq<char>)
    requires
        is_numeral(s),
    ensures
        numeral_value(pad_zeros(k) + s) == numeral_value(s),
        is_numeral(pad_zeros(k) + s),
    decreases s.len(),
{
    let all = pad_zeros(k) + s;
    assert forall|i: int| 0 <= i < all.len() implies is_digit(#[trigger] all[i]) by {
        if i >= k {
            assert(all[i] == s[i - k]);
        }
    }
    assert(all.drop_last() =~= pad_zeros(k) + s.drop_last());
    if s.len() == 1 {
        assert(all.drop_last() =~= pad_zeros(k));
        lemma_only_zeros(k);
        assert(numeral_value(s.drop_last()) == 0);
    } else {
        assert(is_numeral(s.drop_last())) by {
            assert forall|i: int| 0 <= i < s.len() - 1 implies is_digit(
                #[trigger] s.drop_last()[i],
            ) by {
                assert(s.drop_last()[i] == s[i]);
            }
        }
        lemma_zeros(k, s.drop_last());
    }
}

proof fn lemma_only_zeros(k: nat)
    ensures
        numeral_value(pad_zeros(k)) == 0,
    decreases k,
{
    if k > 0 {
        lemma_only_zeros((k - 1) as nat);
        assert(pad_zeros(k).drop_last() =~= pad_zeros((k - 1) as nat));
    }
}

proof fn lemma_no_leading_zero(n: nat)
    ensures
        dec(n).len() > 0,
        n > 0 ==> dec(n)[0] != '0',
        n == 0 ==> dec(n) == seq!['0'],
    decreases n,
{
    if n >= 10 {
        lemma_no_leading_zero(n / 10);
    } else if n == 0 {
        assert(dec(n) =~= seq!['0']);
    }
}

/// A number is written in decimal digits without leading zeros, or with as many as its
/// width asks for, and reads as itself.
pub proof fn numbers_read_as_they_were_written(n: nat, width: nat)
    ensures
        is_numeral(dec(n)),
        numeral_value(dec(n)) == n,
        n > 0 ==> dec(n)[0] != '0',
        n == 0 ==> dec(n) == seq!['0'],
        is_numeral(dec_pad(n, width)),
        numeral_value(dec_pad(n, width)) == n,
        dec_pad(n, width).len() == if dec(n).len() >= width {
            dec(n).len()
        } else {
            width
        },
{
    crate::decimal::lemma_dec_digits(n);
    lemma_no_leading_zero(n);
    if dec(n).len() < width {
        lemma_zeros((width - dec(n).len()) as nat, dec(n));
    }
}

/// A signed number reads as itself.
pub proof fn signed_numbers_read_as_they_were_written(n: i64)
    ensures
        read_int(dec_int(n as int)) == Some(n as int),
{
    let k: int = if n < 0 {
        -(n as int)
    } else {
        n as int
    };
    crate::decimal::lemma_dec_digits(k as nat);
    let s = dec_int(n as int);
    if n < 0 {
        assert(s.drop_first() =~= dec(k as nat));
    } else {
        assert(is_digit(s[0]));
        crate::decimal::reading_inverts_rendering(k as nat, 9223372036854775807);
    }
}

/// A text is found where it first stands, and only where it stands.
pub proof fn the_first_occurrence_is_found(s: Seq<char>, pat: Seq<char>, i: int)
    requires
        0 <= i,
    ensures
        match find_from(s, pat, i) {
            Some(k) => {
                &&& i <= k
                &&& k + pat.len() <= s.len()
                &&& s.subrange(k, k + pat.len()) == pat
                &&& forall|j: int|
                    i <= j < k && j + pat.len() <= s.len() ==> #[trigger] s.subrange(
                        j,
                        j + pat.len(),
                    ) != pat
            },
            None => forall|j: int|
                i <= j && j + pat.len() <= s.len() ==> #[trigger] s.subrange(j, j + pat.len())
                    != pat,
        },
{
    lemma_find_from(s, pat, i);
    match find_from(s, pat, i) {
        Some(k) => {
            assert forall|j: int|
                i <= j < k && j + pat.len() <= s.len() implies #[trigger] s.subrange(
                j,
                j + pat.len(),
            ) != pat by {
                assert(!at(s, j, pat));
            }
        },
        None => {
            assert forall|j: int| i <= j && j + pat.len() <= s.len() implies #[trigger] s.subrange(
                j,
                j + pat.len(),
            ) != pat by {
                assert(!at(s, j, pat));
            }
        },
    }
}

/// The text stands somewhere in another.
pub open spec fn within(s: Seq<char>, whole: Seq<char>) -> bool {
    exists|i: int|
        0 <= i && i + s.len() <= whole.len() && #[trigger] whole.subrange(i, i + s.len()) == s
}

pub proof fn lemma_within(s: Seq<char>, whole: Seq<char>)
    ensures
        within(s, whole) == crate::search::has(whole, s),
{
    if within(s, whole) {
        let i = choose|i: int|
            0 <= i && i + s.len() <= whole.len() && #[trigger] whole.subrange(i, i + s.len()) == s;
        assert(at(whole, i, s));
    }
    if crate::search::has(whole, s) {
        let i = choose|i: int| at(whole, i, s);
        assert(whole.subrange(i, i + s.len()) == s);
    }
}

/// Which characters are white space.
pub proof fn white_space_is_what_unicode_says(c: char)
    ensures
        is_space(c) <==> {
            ||| c == ' ' || c == '\t' || c == '\n' || c == '\r'
            ||| c == '\u{b}' || c == '\u{c}' || c == '\u{85}' || c == '\u{a0}'
            ||| c == '\u{1680}' || c == '\u{2028}' || c == '\u{2029}' || c == '\u{202f}'
            ||| c == '\u{205f}' || c == '\u{3000}'
            ||| '\u{2000}' <= c <= '\u{200a}'
        },
{
}

/// Large letters become the small ones, and every other character stays as it is.
pub proof fn large_letters_become_small(s: Seq<char>, i: int)
    requires
        0 <= i < s.len(),
    ensures
        lower_ascii_text(s).len() == s.len(),
        !('A' <= s[i] <= 'Z') ==> lower_ascii_text(s)[i] == s[i],
        'A' <= s[i] <= 'Z' ==> lower_ascii_text(s)[i] as u32 - 'a' as u32 == s[i] as u32
            - 'A' as u32,
{
}

/// A text is read as a number when it is made of digits, with a plus before them or not,
/// and is no larger than allowed; else it is none.
pub proof fn only_digits_are_read_as_a_number(s: Seq<char>, max: nat)
    ensures
        is_numeral(s) && numeral_value(s) <= max ==> read_uint(s, max) == Some(numeral_value(s)),
        is_numeral(s) && numeral_value(s) > max ==> read_uint(s, max) is None,
        read_uint(seq!['+'] + s, max) is Some ==> is_numeral(s) && read_uint(seq!['+'] + s, max)
            == Some(numeral_value(s)),
        !is_numeral(s) && (s.len() == 0 || s[0] != '+') ==> read_uint(s, max) is None,
{
    assert((seq!['+'] + s).drop_first() =~= s);
    if is_numeral(s) {
        assert(is_digit(s[0]));
    }
}

} // verus!
