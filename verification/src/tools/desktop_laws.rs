//! Which desktop entry a name finds, and what an entry says.
use vstd::prelude::*;
use crate::search::{ends_with, lowercase, split_on, starts_with, trim};
use crate::text::{byte_len, clip};
use crate::text_laws::{lemma_within, within};
use crate::tools::desktop::{
    better, categories_of, clipboard, entry_lines, entry_stem, file_score, launch_error,
    non_empty_pieces, pick, program_error, score, url_error, BestView, EntryView,
};
use crate::tools::shell::CmdOutput;

verus! {

/// A better match: of a better kind, or of the same kind with a shorter stem.
pub open spec fn beats(s: u8, stem: Seq<char>, t: u8, other: Seq<char>) -> bool {
    s < t || (s == t && byte_len(stem) < byte_len(other))
}

/// A file is the one that is found: nothing beats it, and it beats everything before it.
pub open spec fn is_best(files: Seq<(Seq<char>, Seq<char>)>, query: Seq<char>, i: int) -> bool {
    &&& 0 <= i < files.len()
    &&& file_score(files[i], query) is Some
    &&& forall|j: int|
        0 <= j < files.len() && file_score(#[trigger] files[j], query) is Some ==> {
            let s = file_score(files[i], query)->0;
            let t = file_score(files[j], query)->0;
            &&& !beats(t, files[j].0, s, files[i].0)
            &&& j < i ==> beats(s, files[i].0, t, files[j].0)
        }
}

/// Where no stem is the query itself, the entry that is found is the one that fits
/// best: none fits better, and among those that fit as well it is the first. Where
/// none fits, none is found.
pub proof fn the_best_match_is_found(files: Seq<(Seq<char>, Seq<char>)>, query: Seq<char>)
    requires
        forall|j: int| 0 <= j < files.len() ==> lowercase((#[trigger] files[j]).0) != query,
    ensures
        match pick(files, None, query) {
            Some(stem) => exists|i: int| is_best(files, query, i) && stem == (#[trigger] files[i]).0,
            None => forall|j: int|
                0 <= j < files.len() ==> file_score(#[trigger] files[j], query) is None,
        },
{
    lemma_pick(files, None, query);
}

proof fn lemma_pick(files: Seq<(Seq<char>, Seq<char>)>, best: BestView, query: Seq<char>)
    requires
        forall|j: int| 0 <= j < files.len() ==> lowercase((#[trigger] files[j]).0) != query,
    ensures
        ({
            let found = pick(files, best, query);
            let kept = best is Some && found == Some((best->0).1) && forall|j: int|
                0 <= j < files.len() && file_score(#[trigger] files[j], query) is Some ==> !beats(
                    file_score(files[j], query)->0,
                    files[j].0,
                    (best->0).0,
                    (best->0).1,
                );
            let changed = exists|i: int|
                is_best(files, query, i) && found == Some((#[trigger] files[i]).0) && (best is Some
                    ==> beats(
                    file_score(files[i], query)->0,
                    files[i].0,
                    (best->0).0,
                    (best->0).1,
                ));
            let nothing = best is None && found is None && forall|j: int|
                0 <= j < files.len() ==> file_score(#[trigger] files[j], query) is None;
            kept || changed || nothing
        }),
    decreases files.len(),
{
    if files.len() > 0 {
        let rest = files.drop_first();
        assert forall|j: int| 0 <= j < rest.len() implies lowercase((#[trigger] rest[j]).0)
            != query by {
            assert(rest[j] == files[j + 1]);
        }
        let f = files[0];
        let next = better(best, file_score(f, query), f.0);
        lemma_pick(rest, next, query);
        let found = pick(files, best, query);
        assert(found == pick(rest, next, query));
        let changed = exists|i: int|
            is_best(rest, query, i) && found == Some((#[trigger] rest[i]).0) && (next is Some
                ==> beats(
                file_score(rest[i], query)->0,
                rest[i].0,
                (next->0).0,
                (next->0).1,
            ));
        assert forall|j: int| 0 < j < files.len() implies files[j] == #[trigger] rest[j - 1] by {}
        if changed {
            let i = choose|i: int|
                is_best(rest, query, i) && found == Some((#[trigger] rest[i]).0) && (next is Some
                    ==> beats(
                    file_score(rest[i], query)->0,
                    rest[i].0,
                    (next->0).0,
                    (next->0).1,
                ));
            assert(files[i + 1] == rest[i]);
            assert(is_best(files, query, i + 1)) by {
                assert forall|j: int|
                    0 <= j < files.len() && file_score(
                        #[trigger] files[j],
                        query,
                    ) is Some implies {
                    let s = file_score(files[i + 1], query)->0;
                    let t = file_score(files[j], query)->0;
                    &&& !beats(t, files[j].0, s, files[i + 1].0)
                    &&& j < i + 1 ==> beats(s, files[i + 1].0, t, files[j].0)
                } by {
                    if j > 0 {
                        assert(files[j] == rest[j - 1]);
                    }
                }
            }
        } else if next is Some {
            assert(found == Some((next->0).1));
            assert forall|j: int|
                0 < j < files.len() && file_score(
                    #[trigger] files[j],
                    query,
                ) is Some implies !beats(
                file_score(files[j], query)->0,
                files[j].0,
                (next->0).0,
                (next->0).1,
            ) by {
                assert(files[j] == rest[j - 1]);
            }
            if next != best {
                assert(is_best(files, query, 0));
                assert(found == Some(files[0].0));
            }
        } else {
            assert forall|j: int| 0 <= j < files.len() implies file_score(
                #[trigger] files[j],
                query,
            ) is None by {
                if j > 0 {
                    assert(files[j] == rest[j - 1]);
                }
            }
        }
    }
}

/// How well an entry fits, from best to worst: its name is the query, its stem contains
/// it, its name contains it, it is of a category that the query stands for. A hidden
/// entry never fits.
pub proof fn entries_fit_in_four_ways(
    query: Seq<char>,
    stem: Seq<char>,
    name: Seq<char>,
    e: EntryView,
    wanted: Seq<Seq<char>>,
)
    ensures
        ({
            let fit = score(query, stem, name, e, wanted);
            let shared = exists|i: int, j: int|
                0 <= i < e.categories.len() && 0 <= j < wanted.len() && #[trigger] e.categories[i]
                    == #[trigger] wanted[j];
            &&& e.hidden ==> fit is None
            &&& !e.hidden ==> {
                &&& fit == Some(2u8) <==> name == query
                &&& fit == Some(3u8) <==> name != query && within(query, stem)
                &&& fit == Some(4u8) <==> name != query && !within(query, stem) && name.len() > 0
                    && within(query, name)
                &&& fit == Some(5u8) <==> name != query && !within(query, stem) && !(name.len() > 0
                    && within(query, name)) && shared
                &&& fit is None <==> name != query && !within(query, stem) && !(name.len() > 0
                    && within(query, name)) && !shared
            }
        }),
{
    lemma_within(query, stem);
    lemma_within(query, name);
    let a = e.categories;
    if crate::tools::desktop::overlap(a, wanted) {
        let i = choose|i: int| 0 <= i < a.len() && wanted.contains(#[trigger] a[i]);
        let j = choose|j: int| 0 <= j < wanted.len() && wanted[j] == a[i];
        assert(a[i] == wanted[j]);
    }
    if exists|i: int, j: int|
        0 <= i < a.len() && 0 <= j < wanted.len() && #[trigger] a[i] == #[trigger] wanted[j] {
        let (i, j) = choose|i: int, j: int|
            0 <= i < a.len() && 0 <= j < wanted.len() && #[trigger] a[i] == #[trigger] wanted[j];
        assert(wanted.contains(a[i]));
    }
}

/// A line that names the entry.
pub open spec fn names(line: Seq<char>) -> bool {
    starts_with(line, "Name="@)
}

/// A line that lists the categories of the entry.
pub open spec fn lists(line: Seq<char>) -> bool {
    starts_with(line, "Categories="@)
}

/// The name of an entry is that of the first line that names it.
pub proof fn the_first_name_counts(ls: Seq<Seq<char>>)
    ensures
        match entry_lines(ls).name {
            Some(n) => exists|i: int|
                0 <= i < ls.len() && names(#[trigger] ls[i]) && n == ls[i].skip(5) && forall|j: int|
                    0 <= j < i ==> !names(#[trigger] ls[j]),
            None => forall|j: int| 0 <= j < ls.len() ==> !names(#[trigger] ls[j]),
        },
    decreases ls.len(),
{
    reveal_strlit("Name=");
    if ls.len() > 0 {
        let p = ls.drop_last();
        let n = ls.len() - 1;
        the_first_name_counts(p);
        assert forall|j: int| 0 <= j < p.len() implies p[j] == #[trigger] ls[j] by {}
        match entry_lines(p).name {
            Some(x) => {
                let i = choose|i: int|
                    0 <= i < p.len() && names(#[trigger] p[i]) && x == p[i].skip(5)
                        && forall|j: int| 0 <= j < i ==> !names(#[trigger] p[j]);
                assert(ls[i] == p[i]);
                assert forall|j: int| 0 <= j < i implies !names(#[trigger] ls[j]) by {
                    assert(p[j] == ls[j]);
                }
            },
            None => {
                assert forall|j: int| 0 <= j < n implies !names(#[trigger] ls[j]) by {
                    assert(p[j] == ls[j]);
                }
                if names(ls[n]) {
                    assert(entry_lines(ls).name == Some(ls[n].skip(5)));
                }
            },
        }
    }
}

/// An entry is hidden when one of its lines says so.
pub proof fn an_entry_says_that_it_is_hidden(ls: Seq<Seq<char>>)
    ensures
        entry_lines(ls).hidden <==> exists|i: int|
            0 <= i < ls.len() && !names(#[trigger] ls[i]) && !lists(ls[i]) && trim(ls[i])
                == "NoDisplay=true"@,
    decreases ls.len(),
{
    if ls.len() > 0 {
        let p = ls.drop_last();
        let n = ls.len() - 1;
        an_entry_says_that_it_is_hidden(p);
        if entry_lines(p).hidden {
            let i = choose|i: int|
                0 <= i < p.len() && !names(#[trigger] p[i]) && !lists(p[i]) && trim(p[i])
                    == "NoDisplay=true"@;
            assert(ls[i] == p[i]);
        }
        if exists|i: int|
            0 <= i < ls.len() && !names(#[trigger] ls[i]) && !lists(ls[i]) && trim(ls[i])
                == "NoDisplay=true"@ {
            let i = choose|i: int|
                0 <= i < ls.len() && !names(#[trigger] ls[i]) && !lists(ls[i]) && trim(ls[i])
                    == "NoDisplay=true"@;
            if i < n {
                assert(p[i] == ls[i]);
            }
        }
    }
}

/// The categories of an entry are those of the last line that lists them: the pieces
/// between semicolons that are not empty.
pub proof fn the_last_categories_count(ls: Seq<Seq<char>>, line: Seq<char>)
    ensures
        entry_lines(Seq::empty()).categories == Seq::<Seq<char>>::empty(),
        !lists(line) ==> entry_lines(ls.push(line)).categories == entry_lines(ls).categories,
        lists(line) && !names(line) ==> entry_lines(ls.push(line)).categories == split_on(
            line.skip(11),
            ';',
        ).filter(|c: Seq<char>| c.len() > 0),
{
    reveal_strlit("Categories=");
    assert(ls.push(line).drop_last() =~= ls);
    lemma_pieces(split_on(line.skip(11), ';'));
}

proof fn lemma_pieces(parts: Seq<Seq<char>>)
    ensures
        non_empty_pieces(parts) == parts.filter(|c: Seq<char>| c.len() > 0),
    decreases parts.len(),
{
    let full = |c: Seq<char>| c.len() > 0;
    if parts.len() > 0 {
        lemma_pieces(parts.drop_last());
        assert(parts =~= parts.drop_last().push(parts.last()));
        parts.drop_last().lemma_filter_push(parts.last(), full);
    } else {
        assert(parts.filter(full) =~= Seq::empty());
    }
}

/// A desktop entry is a file with the extension, and its stem is the name without it.
pub proof fn an_entry_is_named_by_its_stem(stem: Seq<char>, name: Seq<char>)
    requires
        stem.len() > 0,
    ensures
        entry_stem(stem + ".desktop"@) == Some(stem),
        !ends_with(name, ".desktop"@) ==> entry_stem(name) is None,
{
    reveal_strlit(".desktop");
    let n = stem + ".desktop"@;
    assert(n.subrange(stem.len() as int, n.len() as int) =~= ".desktop"@);
    assert(n.take(stem.len() as int) =~= stem);
}

/// Everyday words stand for the categories of the entries that they mean.
pub proof fn everyday_words_stand_for_categories()
    ensures
        categories_of("terminal"@) == seq!["TerminalEmulator"@],
        categories_of("browser"@) == seq!["WebBrowser"@],
        categories_of("editor"@) == seq!["TextEditor"@, "IDE"@, "Development"@],
        categories_of("file manager"@) == seq!["FileManager"@],
        categories_of("files"@) == seq!["FileManager"@],
        categories_of("calculator"@) == seq!["Calculator"@],
        categories_of("video"@) == seq!["AudioVideo"@, "Video"@, "Player"@],
        categories_of("music"@) == seq!["AudioVideo"@, "Audio"@, "Player"@],
        categories_of("image"@) == seq!["Graphics"@, "RasterGraphics"@, "Photography"@],
        categories_of("settings"@) == seq!["Settings"@],
{
    reveal_strlit("terminal");
    reveal_strlit("browser");
    reveal_strlit("editor");
    reveal_strlit("file manager");
    reveal_strlit("files");
    reveal_strlit("calculator");
    reveal_strlit("video");
    reveal_strlit("music");
    reveal_strlit("image");
    reveal_strlit("settings");
    assert("terminal"@.len() == 8);
    assert("browser"@.len() == 7);
    assert("editor"@.len() == 6);
    assert("file manager"@.len() == 12);
    assert("files"@.len() == 5 && "files"@[0] == 'f');
    assert("calculator"@.len() == 10);
    assert("video"@.len() == 5 && "video"@[0] == 'v');
    assert("music"@.len() == 5 && "music"@[0] == 'm');
    assert("image"@.len() == 5 && "image"@[0] == 'i');
    assert("settings"@.len() == 8 && "settings"@[0] == 's' && "terminal"@[0] == 't');
}

/// Web and mail addresses may be opened, and no others.
pub proof fn only_web_and_mail_may_be_opened(scheme: Seq<char>)
    ensures
        url_error(Ok(scheme)) is None <==> scheme == "http"@ || scheme == "https"@ || scheme
            == "mailto"@,
        url_error(Err(scheme)) is Some,
{
}

/// An application is launched when its launcher succeeds, or goes on past its time; else
/// the error is what the launcher said.
pub proof fn a_launcher_that_goes_on_has_launched(ran: Result<CmdOutput, String>)
    ensures
        match ran {
            Ok(out) => if out.status_ok {
                launch_error(ran) is None
            } else {
                launch_error(ran) == Some(trim(out.stderr@))
            },
            Err(e) => if within("timed out"@, e@) {
                launch_error(ran) is None
            } else {
                launch_error(ran) == Some(e@)
            },
        },
{
    if let Err(e) = ran {
        lemma_within("timed out"@, e@);
    }
}

/// The clipboard is given whole up to four kibibytes, and its beginning with a mark past
/// that; an empty one is no error.
pub proof fn the_clipboard_is_given_up_to_a_cap(out: CmdOutput)
    ensures
        out.status_ok && byte_len(out.stdout@) <= 4096 ==> clipboard(out) == Ok::<
            (Seq<char>, bool),
            Seq<char>,
        >((out.stdout@, false)),
        out.status_ok && byte_len(out.stdout@) > 4096 ==> clipboard(out) == Ok::<
            (Seq<char>, bool),
            Seq<char>,
        >((clip(out.stdout@, 4096) + "\n…[truncated; clipboard exceeded 4KB cap]"@, true)),
        !out.status_ok && trim(out.stderr@).len() == 0 ==> clipboard(out) == Ok::<
            (Seq<char>, bool),
            Seq<char>,
        >((Seq::empty(), false)),
        !out.status_ok && trim(out.stderr@).len() > 0 ==> clipboard(out) is Err,
{
}

/// A program that failed is named with what it complained of.
pub proof fn a_failed_program_is_named(program: Seq<char>, out: CmdOutput)
    ensures
        out.status_ok ==> program_error(program, out) is None,
        !out.status_ok ==> program_error(program, out) == Some(
            program + " failed: "@ + trim(out.stderr@),
        ),
{
}

} // verus!
