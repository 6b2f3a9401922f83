//! Which notes the vault tools find, and what they show of them.
use vstd::prelude::*;
use crate::decimal::dec_pad;
use crate::json::JVal;
use crate::order::{
    earlier_places_hold_larger_keys, equal_keys_keep_their_order, every_item_has_a_place,
};
use crate::search::{
    at, find_from, lemma_find_is, lines, lowercase, split_on, starts_with, trim, trim_start,
};
use crate::text_laws::{blank, free_of, lemma_within, within};
use crate::tools::vault::{
    asks_nothing, at_rank, filter_of, find_count, front_block, front_matter, hits, iso_text,
    moment_text, note_text, pair_line, pair_lines, passes, recent_count, recent_notes, relative,
    secs_of, tag_list, times_of, trim_char, trim_char_end, trim_char_start, value_of, FileView,
    FilterView, Pairs,
};

verus! {

/// The notes in the order in which they are shown.
pub open spec fn ordered(fs: Seq<FileView>) -> Seq<FileView> {
    Seq::new(fs.len(), |k: int| fs[at_rank(fs, k)])
}

/// Notes are shown newest first, each of them once; of two that are equally old the one
/// that was listed first comes first.
pub proof fn notes_are_shown_newest_first(fs: Seq<FileView>, a: int, b: int, i: int)
    requires
        0 <= a < b < fs.len(),
        0 <= i < fs.len(),
    ensures
        ordered(fs).len() == fs.len(),
        ordered(fs)[a].mtime_ns >= ordered(fs)[b].mtime_ns,
        ordered(fs)[a].mtime_ns == ordered(fs)[b].mtime_ns ==> at_rank(fs, a) < at_rank(fs, b),
        at_rank(fs, a) != at_rank(fs, b),
        exists|k: int| 0 <= k < fs.len() && #[trigger] at_rank(fs, k) == i,
{
    let keys = times_of(fs);
    earlier_places_hold_larger_keys(keys, a, b);
    every_item_has_a_place(keys, i);
    crate::order::every_place_is_taken(keys, a);
    crate::order::every_place_is_taken(keys, b);
    let x = at_rank(fs, a);
    let y = at_rank(fs, b);
    assert(keys[x] == fs[x].mtime_ns && keys[y] == fs[y].mtime_ns);
    if keys[x] == keys[y] && x > y {
        equal_keys_keep_their_order(keys, y, x);
    }
    assert(at_rank(fs, crate::order::rank(keys, i)) == i);
}

/// A search shows the notes that fit, newest first, up to its limit, and no others.
pub proof fn a_search_shows_the_newest_notes_that_fit(
    root: Seq<char>,
    fs: Seq<FileView>,
    f: FilterView,
    limit: nat,
)
    ensures
        ({
            let fitting = ordered(fs).filter(|n: FileView| passes(front_matter(n.content), f));
            let shown = if fitting.len() <= limit {
                fitting
            } else {
                fitting.take(limit as int)
            };
            hits(root, fs, f, limit, fs.len()) == shown.map_values(
                |n: FileView| note_text(root, n),
            )
        }),
{
    lemma_hits(root, fs, f, limit, fs.len());
    assert(ordered(fs).take(fs.len() as int) =~= ordered(fs));
}

proof fn lemma_hits(root: Seq<char>, fs: Seq<FileView>, f: FilterView, limit: nat, k: nat)
    requires
        k <= fs.len(),
    ensures
        ({
            let fitting = ordered(fs).take(k as int).filter(
                |n: FileView| passes(front_matter(n.content), f),
            );
            let shown = if fitting.len() <= limit {
                fitting
            } else {
                fitting.take(limit as int)
            };
            hits(root, fs, f, limit, k) == shown.map_values(|n: FileView| note_text(root, n))
        }),
    decreases k,
{
    let fits = |n: FileView| passes(front_matter(n.content), f);
    let show = |n: FileView| note_text(root, n);
    let all = ordered(fs);
    if k == 0 {
        assert(all.take(0).filter(fits) =~= Seq::empty());
        assert(Seq::<FileView>::empty().map_values(show) =~= Seq::empty());
    } else {
        let j = (k - 1) as nat;
        lemma_hits(root, fs, f, limit, j);
        assert(all.take(k as int) =~= all.take(j as int).push(all[j as int]));
        all.take(j as int).lemma_filter_push(all[j as int], fits);
        let old = all.take(j as int).filter(fits);
        let now = all.take(k as int).filter(fits);
        let shown = if now.len() <= limit {
            now
        } else {
            now.take(limit as int)
        };
        if old.len() > limit {
            assert(shown =~= old.take(limit as int));
        } else if old.len() == limit {
            assert(shown =~= old);
        }
        assert(hits(root, fs, f, limit, k) =~= shown.map_values(show));
    }
}

/// The recent notes are the newest ones, as many as were asked for.
pub proof fn recent_notes_are_the_newest(root: Seq<char>, fs: Seq<FileView>, n: nat)
    ensures
        ({
            let shown = if fs.len() <= n {
                ordered(fs)
            } else {
                ordered(fs).take(n as int)
            };
            recent_notes(root, fs, n) == shown.map_values(|f: FileView| note_text(root, f))
        }),
{
    let shown = if fs.len() <= n {
        ordered(fs)
    } else {
        ordered(fs).take(n as int)
    };
    assert(recent_notes(root, fs, n) =~= shown.map_values(|f: FileView| note_text(root, f)));
}

/// A number of notes that may be asked for is kept; others become the nearest that may,
/// and where none is named there is a usual one.
pub proof fn the_number_of_notes_is_bounded(n: u64)
    requires
        n <= usize::MAX,
    ensures
        recent_count(None) == 10,
        1 <= n <= 50 ==> recent_count(Some(n)) == n,
        n == 0 ==> recent_count(Some(n)) == 1,
        n > 50 ==> recent_count(Some(n)) == 50,
        find_count(None) == 20,
        1 <= n <= 100 ==> find_count(Some(n)) == n,
        n == 0 ==> find_count(Some(n)) == 1,
        n > 100 ==> find_count(Some(n)) == 100,
{
}

/// The value of a field in the front matter, in lower case; nothing where it is absent.
pub open spec fn says(pairs: Pairs, key: Seq<char>) -> Seq<char> {
    match value_of(pairs, key) {
        Some(v) => lowercase(v),
        None => Seq::empty(),
    }
}

/// A note is found exactly when every condition that was given holds of its front
/// matter, case aside: project, type and title contain what was asked for, the status
/// is what was asked for, and every tag that was asked for stands among the tags.
pub proof fn a_note_is_found_when_every_condition_holds(args: JVal, pairs: Pairs)
    ensures
        passes(pairs, filter_of(args)) <==> {
            &&& forall|s: Seq<char>|
                args.field("project"@) == JVal::Str(s) ==> within(
                    #[trigger] lowercase(s),
                    says(pairs, "project"@),
                )
            &&& forall|s: Seq<char>|
                args.field("type"@) == JVal::Str(s) ==> within(
                    #[trigger] lowercase(s),
                    says(pairs, "type"@),
                )
            &&& forall|s: Seq<char>|
                args.field("title_contains"@) == JVal::Str(s) ==> within(
                    #[trigger] lowercase(s),
                    says(pairs, "title"@),
                )
            &&& forall|s: Seq<char>|
                args.field("status"@) == JVal::Str(s) ==> #[trigger] lowercase(s) == says(
                    pairs,
                    "status"@,
                )
            &&& match args.field("tags"@) {
                JVal::Str(s) => forall|i: int|
                    0 <= i < split_on(s, ',').len() ==> {
                        let tag = lowercase(trim(#[trigger] split_on(s, ',')[i]));
                        tag.len() > 0 ==> within(
                            tag,
                            match value_of(pairs, "tags"@) {
                                Some(v) => lowercase(v),
                                None => lowercase(Seq::empty()),
                            },
                        )
                    },
                _ => true,
            }
        },
{
    let f = filter_of(args);
    let tags_in = lowercase(
        match value_of(pairs, "tags"@) {
            Some(v) => v,
            None => Seq::empty(),
        },
    );
    if let JVal::Str(s) = args.field("project"@) {
        lemma_within(lowercase(s), says(pairs, "project"@));
    }
    if let JVal::Str(s) = args.field("type"@) {
        lemma_within(lowercase(s), says(pairs, "type"@));
    }
    if let JVal::Str(s) = args.field("title_contains"@) {
        lemma_within(lowercase(s), says(pairs, "title"@));
    }
    if let JVal::Str(s) = args.field("tags"@) {
        let parts = split_on(s, ',');
        lemma_tags(parts, tags_in);
    }
}

proof fn lemma_tags(parts: Seq<Seq<char>>, whole: Seq<char>)
    ensures
        (forall|i: int|
            0 <= i < tag_list(parts).len() ==> crate::search::has(
                whole,
                #[trigger] tag_list(parts)[i],
            )) <==> (forall|i: int|
            0 <= i < parts.len() ==> {
                let tag = lowercase(trim(#[trigger] parts[i]));
                tag.len() > 0 ==> within(tag, whole)
            }),
    decreases parts.len(),
{
    if parts.len() > 0 {
        let p = parts.drop_last();
        lemma_tags(p, whole);
        let t = lowercase(trim(parts.last()));
        lemma_within(t, whole);
        let all = tag_list(parts);
        let old = tag_list(p);
        if forall|i: int|
            0 <= i < all.len() ==> crate::search::has(whole, #[trigger] all[i]) {
            assert forall|i: int| 0 <= i < old.len() implies crate::search::has(
                whole,
                #[trigger] old[i],
            ) by {
                assert(all[i] == old[i]);
            }
            if t.len() > 0 {
                assert(all[old.len() as int] == t);
            }
            assert forall|i: int| 0 <= i < parts.len() implies {
                let tag = lowercase(trim(#[trigger] parts[i]));
                tag.len() > 0 ==> within(tag, whole)
            } by {
                if i < p.len() {
                    assert(p[i] == parts[i]);
                }
            }
        }
        if forall|i: int|
            0 <= i < parts.len() ==> {
                let tag = lowercase(trim(#[trigger] parts[i]));
                tag.len() > 0 ==> within(tag, whole)
            } {
            assert forall|i: int| 0 <= i < p.len() implies {
                let tag = lowercase(trim(#[trigger] p[i]));
                tag.len() > 0 ==> within(tag, whole)
            } by {
                assert(p[i] == parts[i]);
            }
            assert(parts[parts.len() - 1] == parts.last());
            assert forall|i: int| 0 <= i < all.len() implies crate::search::has(
                whole,
                #[trigger] all[i],
            ) by {
                if i < old.len() {
                    assert(all[i] == old[i]);
                }
            }
        }
    }
}

/// The front matter is what stands between the first line, of dashes, and the next line
/// that begins with three of them.
pub proof fn front_matter_stands_between_dashes(
    lead: Seq<char>,
    first: Seq<char>,
    block: Seq<char>,
    rest: Seq<char>,
)
    requires
        blank(lead),
        starts_with(first, "---"@),
        free_of(first, '\n'),
        forall|i: int| 0 <= i < block.len() ==> !at(block + "\n---"@ + rest, i, "\n---"@),
    ensures
        front_block(lead + first.push('\n') + block + "\n---"@ + rest) == Some(block),
{
    reveal_strlit("---");
    reveal_strlit("\n---");
    let tail = block + "\n---"@ + rest;
    let s = lead + first.push('\n') + block + "\n---"@ + rest;
    let t = first.push('\n') + tail;
    assert(s =~= lead + t);
    let n = lead.len() as int;
    assert(first.subrange(0, 3)[0] == first[0]);
    assert(first[0] == '-');
    assert(s[n] == '-');
    assert forall|j: int| 0 <= j < n implies crate::search::is_space(s[j]) by {
        assert(s[j] == lead[j]);
    }
    crate::search::lemma_trim_start(s, n);
    assert(s.skip(n) =~= t);
    assert(trim_start(s) == t);
    assert(t.subrange(0, 3) =~= first.subrange(0, 3));
    assert forall|j: int| 0 <= j < first.len() implies #[trigger] t[j] != '\n' by {
        assert(t[j] == first[j]);
    }
    crate::search::lemma_next_sep(t, '\n', 0);
    let k = crate::search::next_sep(t, '\n', 0);
    assert(t[first.len() as int] == '\n');
    assert(k == first.len()) by {
        if k < first.len() {
            assert(t[k] != '\n');
        }
    }
    assert(t.skip(k + 1) =~= tail);
    let m = block.len() as int;
    assert(tail.subrange(m, m + 4) =~= "\n---"@);
    lemma_find_is(tail, "\n---"@, 0, m);
    assert(find_from(tail, "\n---"@, 0) == Some(m));
    assert(tail.take(m) =~= block);
}

/// A line of the front matter gives a field its value: what stands before the first
/// colon names it, what follows is its value, without the quotes around it. A line
/// without a colon, or without a name, gives none.
pub proof fn a_line_gives_a_field_its_value(pairs: Pairs, key: Seq<char>, value: Seq<char>)
    requires
        free_of(key, ':'),
    ensures
        trim(key).len() > 0 ==> pair_line(pairs, key.push(':') + value) == pairs.push(
            (trim(key), trim_char(trim_char(trim(value), '"'), '\'')),
        ),
        trim(key).len() == 0 ==> pair_line(pairs, key.push(':') + value) == pairs,
        pair_line(pairs, key) == pairs,
{
    let line = key.push(':') + value;
    crate::search::lemma_next_sep(line, ':', 0);
    crate::search::lemma_next_sep(key, ':', 0);
    let i = crate::search::next_sep(line, ':', 0);
    let n = key.len() as int;
    assert(line[n] == ':');
    assert(i == n) by {
        if i < n {
            assert(line[i] == key[i]);
        }
    }
    assert(line.take(n) =~= key);
    assert(line.skip(n + 1) =~= value);
    if crate::search::next_sep(key, ':', 0) < key.len() {
        assert(key[crate::search::next_sep(key, ':', 0)] == ':');
    }
}

/// A text of one character alone.
pub open spec fn only(s: Seq<char>, c: char) -> bool {
    forall|i: int| 0 <= i < s.len() ==> #[trigger] s[i] == c
}

/// Quotes are taken off both ends of a value, and nothing else.
pub proof fn quotes_are_taken_off(a: Seq<char>, m: Seq<char>, b: Seq<char>, c: char)
    requires
        only(a, c),
        only(b, c),
        m.len() > 0,
        m[0] != c,
        m.last() != c,
    ensures
        trim_char(a + m + b, c) == m,
{
    lemma_quotes_before(a, m + b, c);
    assert(a + (m + b) =~= a + m + b);
    lemma_quotes_after(m, b, c);
}

proof fn lemma_quotes_before(a: Seq<char>, m: Seq<char>, c: char)
    requires
        only(a, c),
        m.len() > 0,
        m[0] != c,
    ensures
        trim_char_start(a + m, c) == m,
    decreases a.len(),
{
    if a.len() == 0 {
        assert(a + m =~= m);
    } else {
        let s = a + m;
        assert(s[0] == a[0]);
        assert(s.drop_first() =~= a.drop_first() + m);
        lemma_quotes_before(a.drop_first(), m, c);
    }
}

proof fn lemma_quotes_after(m: Seq<char>, b: Seq<char>, c: char)
    requires
        only(b, c),
        m.len() > 0,
        m.last() != c,
    ensures
        trim_char_end(m + b, c) == m,
    decreases b.len(),
{
    if b.len() == 0 {
        assert(m + b =~= m);
    } else {
        let s = m + b;
        assert(s.last() == b.last());
        assert(s.drop_last() =~= m + b.drop_last());
        lemma_quotes_after(m, b.drop_last(), c);
    }
}

/// Of several values of a field the last one counts.
pub proof fn the_last_value_counts(
    pairs: Pairs,
    key: Seq<char>,
    value: Seq<char>,
    other: Seq<char>,
)
    requires
        other != key,
    ensures
        value_of(Seq::empty(), key) is None,
        value_of(pairs.push((key, value)), key) == Some(value),
        value_of(pairs.push((key, value)), other) == value_of(pairs, other),
{
    assert(pairs.push((key, value)).drop_last() =~= pairs);
}

/// A path below the root is shown from the root on; any other is shown whole.
pub proof fn paths_are_shown_from_the_root(root: Seq<char>, path: Seq<char>)
    requires
        root.len() > 0,
        root.last() != '/',
    ensures
        path.len() > 0 ==> relative(root, root.push('/') + path) == path,
        path.len() <= root.len() || path.take(root.len() as int + 1) != root.push('/') ==> path
            == root || relative(root, path) == path,
{
    reveal_strlit("/");
    let n = root.len() as int;
    assert(root.subrange(n - 1, n)[0] == root.last());
    assert(root + "/"@ =~= root.push('/'));
    let p = root.push('/') + path;
    assert(p.subrange(0, n + 1) =~= root.push('/'));
    assert(p.skip(n + 1) =~= path);
    if path.len() > n {
        assert(path.subrange(0, n + 1) =~= path.take(n + 1));
    }
}

/// The value of a field as it is shown: a dash where the note lacks it.
pub open spec fn shown(pairs: Pairs, key: Seq<char>) -> Seq<char> {
    match value_of(pairs, key) {
        Some(v) => v,
        None => "—"@,
    }
}

/// What is shown of a note: when it was changed, where it stands, and four of its
/// fields by name.
pub proof fn a_note_is_shown_with_its_fields(root: Seq<char>, f: FileView)
    ensures
        ({
            let p = front_matter(f.content);
            let rest = "  type="@ + shown(p, "type"@) + "  project="@ + shown(p, "project"@) + (
            "  status="@ + shown(p, "status"@));
            note_text(root, f) == moment_text(secs_of(f.mtime_ns)) + "  "@ + relative(root, f.path)
                + "\n  title="@ + shown(p, "title"@) + rest
        }),
{
}

/// A moment is written as its year, month and day, and its hour, minute and second, in
/// two digits each and four for the year.
pub proof fn a_moment_is_written_by_its_parts(
    y: int,
    mo: int,
    d: int,
    hour: int,
    minute: int,
    second: int,
)
    requires
        0 <= hour < 24,
        0 <= minute < 60,
        0 <= second < 60,
    ensures
        iso_text(y, mo, d, hour * 3600 + minute * 60 + second) == dec_pad(y as nat, 4) + "-"@
            + dec_pad(mo as nat, 2) + "-"@ + dec_pad(d as nat, 2) + ("T"@ + dec_pad(hour as nat, 2)
            + ":"@ + dec_pad(minute as nat, 2) + (":"@ + dec_pad(second as nat, 2) + "Z"@)),
{
    let s = hour * 3600 + minute * 60 + second;
    assert(s / 3600 == hour);
    assert(s % 3600 == minute * 60 + second);
    assert(s % 3600 / 60 == minute);
    assert(s % 60 == second);
}

/// A time is counted in whole seconds; one before 1970 counts as its beginning.
pub proof fn times_are_whole_seconds(ns: i128)
    ensures
        ns < 0 ==> secs_of(ns) == 0,
        0 <= ns <= 1_000_000_000_000_000_000_000_000_000 ==> secs_of(ns) * 1_000_000_000 <= ns < (
        secs_of(ns) + 1) * 1_000_000_000,
{
}

/// The fields of a note are those of the lines of its front matter, one after the other;
/// a note without any has none.
pub proof fn fields_come_from_the_front_matter(
    content: Seq<char>,
    ls: Seq<Seq<char>>,
    line: Seq<char>,
)
    ensures
        front_matter(None) == Seq::<(Seq<char>, Seq<char>)>::empty(),
        front_block(content) is None ==> front_matter(Some(content)) == Seq::<
            (Seq<char>, Seq<char>),
        >::empty(),
        front_block(content) is Some ==> front_matter(Some(content)) == pair_lines(
            lines(front_block(content)->0),
        ),
        pair_lines(Seq::empty()) == Seq::<(Seq<char>, Seq<char>)>::empty(),
        pair_lines(ls.push(line)) == pair_line(pair_lines(ls), line),
{
    assert(ls.push(line).drop_last() =~= ls);
}

/// A search has to ask for something: an object with a field.
pub proof fn a_search_asks_for_something(args: JVal)
    ensures
        asks_nothing(args) <==> !(args is Obj) || args->Obj_0.len() == 0,
{
}

/// A note that does not begin with dashes, or whose front matter does not end, has none.
pub proof fn front_matter_has_to_begin_and_end(content: Seq<char>, first: Seq<char>, body: Seq<char>)
    requires
        starts_with(first, "---"@),
        free_of(first, '\n'),
        forall|i: int| !at(body, i, "\n---"@),
    ensures
        !starts_with(trim_start(content), "---"@) ==> front_block(content) is None,
        front_block(first) is None,
        front_block(first.push('\n') + body) is None,
{
    reveal_strlit("---");
    let t = first.push('\n') + body;
    assert(first.subrange(0, 3)[0] == first[0]);
    assert(first[0] == '-');
    crate::search::lemma_trim_start(first, 0);
    assert(first.skip(0) =~= first);
    crate::search::lemma_next_sep(first, '\n', 0);
    let j = crate::search::next_sep(first, '\n', 0);
    if j < first.len() {
        assert(first[j] == '\n');
    }
    assert(t[0] == '-');
    crate::search::lemma_trim_start(t, 0);
    assert(t.skip(0) =~= t);
    crate::search::lemma_next_sep(t, '\n', 0);
    let k = crate::search::next_sep(t, '\n', 0);
    assert(t[first.len() as int] == '\n');
    assert(k == first.len()) by {
        if k < first.len() {
            assert(t[k] == first[k]);
        }
    }
    assert(t.skip(k + 1) =~= body);
    crate::search::lemma_find_none(body, "\n---"@, 0);
}

/// A value of quotes alone is empty.
pub proof fn quotes_alone_are_nothing(a: Seq<char>, c: char)
    requires
        only(a, c),
    ensures
        trim_char(a, c) == Seq::<char>::empty(),
    decreases a.len(),
{
    if a.len() > 0 {
        assert(a[0] == c);
        quotes_alone_are_nothing(a.drop_first(), c);
        assert(trim_char(a, c) == trim_char(a.drop_first(), c));
    }
}

/// A root that ends with a slash is taken as one without.
pub proof fn a_slash_at_the_end_of_the_root_does_not_matter(root: Seq<char>, path: Seq<char>)
    requires
        path.len() > 0,
    ensures
        relative(root.push('/'), root.push('/') + path) == path,
{
    reveal_strlit("/");
    let base = root.push('/');
    let n = base.len() as int;
    assert(base.subrange(n - 1, n) =~= "/"@);
    let p = base + path;
    assert(p.subrange(0, n) =~= base);
    assert(p.skip(n) =~= path);
}

} // verus!
