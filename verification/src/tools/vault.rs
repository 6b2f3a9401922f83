//! `vault_recent` and `vault_find`: notes of a Markdown vault by age and by
//! their front matter.
use vstd::prelude::*;
use vstd::string::*;
use crate::calendar::{a_day_has_one_date, civil_from_days, day_number, is_date};
use crate::decimal::{dec_pad, decimal_padded};
use crate::json::{JVal, Json};
use crate::message::opt_text;
use crate::order::{largest_at, largest_first};
use crate::pieces::{
    join_texts, lemma_texts_push, next_sep_pos, split, split_lines, trimmed, trimmed_start,
};
use crate::search::{
    at, begins, contains, ends_with, find_from, find_pos, has, join, lemma_find_from, lines,
    lowercase, next_sep, split_on, starts_with, strip_prefix, texts, to_lower, trim, trim_start,
};
use crate::text::{cat2, cat3, cat5, chars_of, chars_range, copy, same, text_range};

verus! {

/// A note of the vault.
#[derive(Debug)]
pub struct VaultFile {
    /// The note's path.
    pub path: String,
    /// When it was last changed, in nanoseconds since 1970.
    pub mtime_ns: i128,
    /// Its text, where it could be read.
    pub content: Option<String>,
}

/// The content of a [`VaultFile`].
pub struct FileView {
    pub path: Seq<char>,
    pub mtime_ns: i128,
    pub content: Option<Seq<char>>,
}

impl View for VaultFile {
    type V = FileView;

    open spec fn view(&self) -> FileView {
        FileView { path: self.path@, mtime_ns: self.mtime_ns, content: opt_text(self.content) }
    }
}

pub open spec fn files_view(v: Seq<VaultFile>) -> Seq<FileView> {
    v.map_values(|f: VaultFile| f@)
}

/// A text without a character at either end.
pub open spec fn trim_char_start(s: Seq<char>, c: char) -> Seq<char>
    decreases s.len(),
{
    if s.len() > 0 && s[0] == c {
        trim_char_start(s.drop_first(), c)
    } else {
        s
    }
}

pub open spec fn trim_char_end(s: Seq<char>, c: char) -> Seq<char>
    decreases s.len(),
{
    if s.len() > 0 && s.last() == c {
        trim_char_end(s.drop_last(), c)
    } else {
        s
    }
}

/// A text without a character at either end.
pub open spec fn trim_char(s: Seq<char>, c: char) -> Seq<char> {
    trim_char_end(trim_char_start(s, c), c)
}

fn trimmed_char(s: &str, c: char) -> (r: String)
    ensures
        r@ == trim_char(s@, c),
{
    let v = chars_of(s);
    let n: usize = v.len();
    let mut a: usize = 0;
    assert(s@.skip(0) =~= s@);
    while a < n && v[a] == c
        invariant
            a <= n,
            n == v@.len(),
            v@ == s@,
            trim_char_start(s@.skip(a as int), c) == trim_char_start(s@, c),
        decreases n - a,
    {
        assert(s@.skip(a as int).drop_first() =~= s@.skip(a as int + 1));
        a += 1;
    }
    let ghost rest = s@.skip(a as int);
    let mut b: usize = n;
    assert(rest.take(n - a) =~= rest);
    while b > a && v[b - 1] == c
        invariant
            a <= b <= n,
            n == v@.len(),
            v@ == s@,
            rest == s@.skip(a as int),
            trim_char_end(rest.take(b - a), c) == trim_char_end(rest, c),
        decreases b,
    {
        assert(rest.take(b - a).drop_last() =~= rest.take(b - a - 1));
        b -= 1;
    }
    let r = text_range(&v, a, b);
    assert(r@ =~= rest.take(b - a));
    r
}

/// The pairs of the front matter.
pub type Pairs = Seq<(Seq<char>, Seq<char>)>;

/// What a line of the front matter adds: a key before the first colon and a
/// value after it, without quotes around it.
pub open spec fn pair_line(pairs: Pairs, line: Seq<char>) -> Pairs {
    let i = next_sep(line, ':', 0);
    if 0 <= i < line.len() {
        let key = trim(line.take(i));
        let value = trim_char(trim_char(trim(line.skip(i + 1)), '"'), '\'');
        if key.len() > 0 {
            pairs.push((key, value))
        } else {
            pairs
        }
    } else {
        pairs
    }
}

pub open spec fn pair_lines(ls: Seq<Seq<char>>) -> Pairs
    decreases ls.len(),
{
    if ls.len() == 0 {
        Seq::empty()
    } else {
        pair_line(pair_lines(ls.drop_last()), ls.last())
    }
}

/// The block between the two rules at the beginning of a note, if there is one.
pub open spec fn front_block(content: Seq<char>) -> Option<Seq<char>> {
    let t = trim_start(content);
    let nl = next_sep(t, '\n', 0);
    if !starts_with(t, "---"@) || nl < 0 || nl >= t.len() {
        None
    } else {
        let body = t.skip(nl + 1);
        match find_from(body, "\n---"@, 0) {
            Some(e) => Some(body.take(e)),
            None => None,
        }
    }
}

/// The front matter of a note.
pub open spec fn front_matter(content: Option<Seq<char>>) -> Pairs {
    match content {
        None => Seq::empty(),
        Some(c) => match front_block(c) {
            None => Seq::empty(),
            Some(block) => pair_lines(lines(block)),
        },
    }
}

/// The value of a key: the last one given.
pub open spec fn value_of(pairs: Pairs, key: Seq<char>) -> Option<Seq<char>>
    decreases pairs.len(),
{
    if pairs.len() == 0 {
        None
    } else if pairs.last().0 == key {
        Some(pairs.last().1)
    } else {
        value_of(pairs.drop_last(), key)
    }
}

pub open spec fn pairs_view(v: Seq<(String, String)>) -> Pairs {
    v.map_values(|p: (String, String)| (p.0@, p.1@))
}

fn take_pair(pairs: &mut Vec<(String, String)>, line: &str)
    ensures
        pairs_view(final(pairs)@) == pair_line(pairs_view(old(pairs)@), line@),
{
    let v = chars_of(line);
    let i: usize = next_sep_pos(&v, ':', 0);
    if i < v.len() {
        let left = text_range(&v, 0, i);
        let right = text_range(&v, i + 1, v.len());
        assert(left@ =~= line@.take(i as int));
        assert(right@ =~= line@.skip(i + 1));
        let key = trimmed(left.as_str());
        let t = trimmed(right.as_str());
        let u = trimmed_char(t.as_str(), '"');
        let value = trimmed_char(u.as_str(), '\'');
        if !key.as_str().is_empty() {
            pairs.push((key, value));
            assert(pairs_view(pairs@) =~= pairs_view(old(pairs)@).push((key@, value@)));
        }
    }
}

/// Reads the front matter of a note.
pub fn parse_frontmatter(content: &Option<String>) -> (r: Vec<(String, String)>)
    ensures
        pairs_view(r@) == front_matter(opt_text(*content)),
{
    let mut out: Vec<(String, String)> = Vec::new();
    assert(pairs_view(out@) =~= Seq::empty());
    let c = match content {
        Some(c) => c,
        None => {
            return out;
        },
    };
    let t = trimmed_start(c.as_str());
    if !begins(t.as_str(), "---") {
        return out;
    }
    let v = chars_of(t.as_str());
    let nl: usize = next_sep_pos(&v, '\n', 0);
    if nl >= v.len() {
        return out;
    }
    let body = chars_range(&v, nl + 1, v.len());
    assert(body@ =~= t@.skip(nl + 1));
    let rule = chars_of("\n---");
    proof {
        lemma_find_from(body@, "\n---"@, 0);
    }
    let end: usize = match find_pos(&body, &rule, 0) {
        Some(e) => e,
        None => {
            return out;
        },
    };
    let block = text_range(&body, 0, end);
    assert(block@ =~= body@.take(end as int));
    let ls = split_lines(block.as_str());
    let n: usize = ls.len();
    let mut i: usize = 0;
    let ghost all = lines(block@);
    assert(all.take(0) =~= Seq::empty());
    while i < n
        invariant
            i <= n,
            n == ls@.len(),
            all == texts(ls@),
            pairs_view(out@) == pair_lines(all.take(i as int)),
        decreases n - i,
    {
        proof {
            assert(all.take(i as int + 1).drop_last() =~= all.take(i as int));
            assert(all[i as int] == ls@[i as int]@);
        }
        take_pair(&mut out, ls[i].as_str());
        i += 1;
    }
    assert(all.take(n as int) =~= all);
    out
}

/// The value of a key of the front matter.
pub fn lookup<'a>(pairs: &'a Vec<(String, String)>, key: &str) -> (r: Option<&'a str>)
    ensures
        crate::paths::opt_str(r) == value_of(pairs_view(pairs@), key@),
{
    let n: usize = pairs.len();
    let mut i: usize = n;
    let ghost all = pairs_view(pairs@);
    assert(all.take(n as int) =~= all);
    while i > 0
        invariant
            i <= n,
            n == pairs@.len(),
            all == pairs_view(pairs@),
            value_of(all, key@) == value_of(all.take(i as int), key@),
        decreases i,
    {
        proof {
            assert(all.take(i as int).drop_last() =~= all.take(i - 1));
            assert(all[i - 1] == (pairs@[i - 1].0@, pairs@[i - 1].1@));
        }
        i -= 1;
        if same(pairs[i].0.as_str(), key) {
            return Some(pairs[i].1.as_str());
        }
    }
    None
}

/// A path below a root, or the whole path where it does not lie below it.
pub open spec fn relative(root: Seq<char>, path: Seq<char>) -> Seq<char> {
    let base = if ends_with(root, "/"@) {
        root
    } else {
        root + "/"@
    };
    if path == root {
        Seq::empty()
    } else if starts_with(path, base) {
        path.skip(base.len() as int)
    } else {
        path
    }
}

/// A path below a root.
pub fn rel(root: &str, path: &str) -> (r: String)
    ensures
        r@ == relative(root@, path@),
{
    let base = if crate::search::ends(root, "/") {
        copy(root)
    } else {
        cat2(root, "/")
    };
    if same(path, root) {
        return String::new();
    }
    match strip_prefix(path, base.as_str()) {
        Some(rest) => rest,
        None => copy(path),
    }
}

/// A date and a time of day as text.
pub open spec fn iso_text(y: int, mo: int, d: int, secs: int) -> Seq<char> {
    dec_pad(y as nat, 4) + "-"@ + dec_pad(mo as nat, 2) + "-"@ + dec_pad(d as nat, 2) + ("T"@
        + dec_pad((secs / 3600) as nat, 2) + ":"@ + dec_pad((secs % 3600 / 60) as nat, 2) + (":"@
        + dec_pad((secs % 60) as nat, 2) + "Z"@))
}

/// A text is the moment so many seconds after the beginning of 1970.
pub open spec fn is_moment(s: Seq<char>, secs: int) -> bool {
    exists|y: int, mo: int, d: int|
        is_date(y, mo, d) && #[trigger] day_number(y, mo, d) == secs / 86400 && s == iso_text(
            y,
            mo,
            d,
            secs % 86400,
        )
}

/// There is one text for a moment.
pub proof fn a_moment_has_one_text(s: Seq<char>, t: Seq<char>, secs: int)
    requires
        is_moment(s, secs),
        is_moment(t, secs),
    ensures
        s == t,
{
    let (y1, m1, d1) = choose|y: int, mo: int, d: int|
        is_date(y, mo, d) && #[trigger] day_number(y, mo, d) == secs / 86400 && s == iso_text(
            y,
            mo,
            d,
            secs % 86400,
        );
    let (y2, m2, d2) = choose|y: int, mo: int, d: int|
        is_date(y, mo, d) && #[trigger] day_number(y, mo, d) == secs / 86400 && t == iso_text(
            y,
            mo,
            d,
            secs % 86400,
        );
    a_day_has_one_date(y1, m1, d1, y2, m2, d2);
}

/// The text of a moment.
pub open spec fn moment_text(secs: int) -> Seq<char> {
    choose|s: Seq<char>| is_moment(s, secs)
}

/// A moment as text, in UTC.
pub fn fmt_mtime(secs: u64) -> (r: String)
    ensures
        is_moment(r@, secs as int),
        r@ == moment_text(secs as int),
{
    let days: u64 = secs / 86400;
    let tod: u64 = secs % 86400;
    let (y, mo, d) = civil_from_days(days);
    let ys = decimal_padded(y, 4);
    let mos = decimal_padded(mo, 2);
    let ds = decimal_padded(d, 2);
    let hs = decimal_padded(tod / 3600, 2);
    let mis = decimal_padded(tod % 3600 / 60, 2);
    let ss = decimal_padded(tod % 60, 2);
    let tail = cat3(":", ss.as_str(), "Z");
    let time = cat5("T", hs.as_str(), ":", mis.as_str(), tail.as_str());
    let date = cat5(ys.as_str(), "-", mos.as_str(), "-", ds.as_str());
    let r = cat2(date.as_str(), time.as_str());
    proof {
        assert(r@ == iso_text(y as int, mo as int, d as int, secs as int % 86400));
        assert(day_number(y as int, mo as int, d as int) == secs as int / 86400);
        assert(is_moment(r@, secs as int));
        a_moment_has_one_text(r@, moment_text(secs as int), secs as int);
    }
    r
}

/// The seconds of a time in nanoseconds; none before 1970.
pub open spec fn secs_of(ns: i128) -> int {
    if ns < 0 {
        0
    } else if ns as int / 1000000000 > u64::MAX {
        u64::MAX as int
    } else {
        ns as int / 1000000000
    }
}

fn seconds(ns: i128) -> (r: u64)
    ensures
        r == secs_of(ns),
{
    if ns < 0 {
        0
    } else {
        let s: i128 = ns / 1000000000;
        if s > u64::MAX as i128 {
            u64::MAX
        } else {
            s as u64
        }
    }
}

/// The value of a key, or a dash.
pub open spec fn shown_value(pairs: Pairs, key: Seq<char>) -> Seq<char> {
    match value_of(pairs, key) {
        Some(v) => v,
        None => "—"@,
    }
}

/// A note as it is listed.
pub open spec fn note_text(root: Seq<char>, f: FileView) -> Seq<char> {
    let p = front_matter(f.content);
    moment_text(secs_of(f.mtime_ns)) + "  "@ + relative(root, f.path) + "\n  title="@ + shown_value(
        p,
        "title"@,
    ) + ("  type="@ + shown_value(p, "type"@) + "  project="@ + shown_value(p, "project"@) + (
    "  status="@ + shown_value(p, "status"@)))
}

fn value_or_dash(pairs: &Vec<(String, String)>, key: &str) -> (r: String)
    ensures
        r@ == shown_value(pairs_view(pairs@), key@),
{
    match lookup(pairs, key) {
        Some(v) => copy(v),
        None => copy("—"),
    }
}

fn note_line(root: &str, f: &VaultFile, pairs: &Vec<(String, String)>) -> (r: String)
    requires
        pairs_view(pairs@) == front_matter(f@.content),
    ensures
        r@ == note_text(root@, f@),
{
    let when = fmt_mtime(seconds(f.mtime_ns));
    let place = rel(root, f.path.as_str());
    let title = value_or_dash(pairs, "title");
    let kind = value_or_dash(pairs, "type");
    let project = value_or_dash(pairs, "project");
    let status = value_or_dash(pairs, "status");
    let tail = cat2("  status=", status.as_str());
    let middle = cat5("  type=", kind.as_str(), "  project=", project.as_str(), tail.as_str());
    let head = cat5(when.as_str(), "  ", place.as_str(), "\n  title=", title.as_str());
    cat2(head.as_str(), middle.as_str())
}

/// When the notes were changed.
pub open spec fn times_of(fs: Seq<FileView>) -> Seq<i128> {
    fs.map_values(|f: FileView| f.mtime_ns)
}

/// The note at a place when the newest come first.
pub open spec fn at_rank(fs: Seq<FileView>, k: int) -> int {
    largest_at(times_of(fs), k)
}

/// The notes' indices, the newest note's first; of two equally new ones, the one
/// found earlier.
pub fn newest_first(files: &Vec<VaultFile>) -> (r: Vec<usize>)
    ensures
        r@.len() == files@.len(),
        forall|k: int|
            0 <= k < r@.len() ==> 0 <= #[trigger] r@[k] < files@.len() && r@[k] == at_rank(
                files_view(files@),
                k,
            ),
{
    let n: usize = files.len();
    let mut keys: Vec<i128> = Vec::new();
    let mut i: usize = 0;
    while i < n
        invariant
            i <= n,
            n == files@.len(),
            keys@.len() == i,
            forall|j: int| 0 <= j < i ==> #[trigger] keys@[j] == files@[j].mtime_ns,
        decreases n - i,
    {
        keys.push(files[i].mtime_ns);
        i += 1;
    }
    assert(keys@ =~= times_of(files_view(files@)));
    largest_first(&keys)
}

/// `vault_recent`: the notes that were changed last.
pub struct VaultRecent {
    vault_root: String,
}

/// A number of notes: ten by default, from one to fifty.
pub open spec fn recent_count(asked: Option<u64>) -> nat {
    let n = match asked {
        Some(n) => (n as usize) as nat,
        None => 10,
    };
    if n < 1 {
        1
    } else if n > 50 {
        50
    } else {
        n
    }
}

/// The lists of the newest notes.
pub open spec fn recent_notes(root: Seq<char>, fs: Seq<FileView>, n: nat) -> Seq<Seq<char>> {
    Seq::new(
        if fs.len() <= n {
            fs.len()
        } else {
            n
        },
        |k: int| note_text(root, fs[at_rank(fs, k)]),
    )
}

/// The error where the vault is missing.
pub open spec fn no_vault(root: Seq<char>) -> Seq<char> {
    "vault_root is not a directory: "@ + root
}

impl VaultRecent {
    pub closed spec fn root(&self) -> Seq<char> {
        self.vault_root@
    }

    pub fn new(vault_root: String) -> (r: Self)
        ensures
            r.root() == vault_root@,
    {
        VaultRecent { vault_root }
    }

    /// Lists the notes that were changed last. The files are those found below
    /// the root; none are given where there is no such directory.
    pub fn call(&self, args: &Json, files: Option<&Vec<VaultFile>>) -> (r: Result<String, String>)
        ensures
            match files {
                None => r is Err && r->Err_0@ == no_vault(self.root()),
                Some(fs) => r is Ok && r->Ok_0@ == (if fs@.len() == 0 {
                    "(no Markdown files found in vault)"@
                } else {
                    join(
                        recent_notes(
                            self.root(),
                            files_view(fs@),
                            recent_count(args@.field("n"@).as_uint()),
                        ),
                        "\n"@,
                    )
                }),
            },
    {
        let asked: usize = match args.uint_field("n") {
            Some(n) => {
                #[verifier::truncate]
                let m: usize = n as usize;
                m
            },
            None => 10,
        };
        let n: usize = if asked < 1 {
            1
        } else if asked > 50 {
            50
        } else {
            asked
        };
        let root = self.vault_root.as_str();
        let fs = match files {
            Some(fs) => fs,
            None => {
                return Err(cat2("vault_root is not a directory: ", root));
            },
        };
        if fs.len() == 0 {
            return Ok(copy("(no Markdown files found in vault)"));
        }
        let order = newest_first(fs);
        let count: usize = if fs.len() <= n {
            fs.len()
        } else {
            n
        };
        let ghost view = files_view(fs@);
        let ghost all = recent_notes(root@, view, n as nat);
        let mut out: Vec<String> = Vec::new();
        let mut k: usize = 0;
        while k < count
            invariant
                k <= count <= fs@.len(),
                count == all.len(),
                view == files_view(fs@),
                all == recent_notes(root@, view, n as nat),
                order@.len() == fs@.len(),
                forall|k: int|
                    0 <= k < order@.len() ==> 0 <= #[trigger] order@[k] < fs@.len() && order@[k]
                        == at_rank(view, k),
                texts(out@) == all.take(k as int),
            decreases count - k,
        {
            let f = &fs[order[k]];
            assert(view[order@[k as int] as int] == f@);
            let pairs = parse_frontmatter(&f.content);
            let line = note_line(root, f, &pairs);
            proof {
                assert(line@ == all[k as int]);
                lemma_texts_push(out@, line);
            }
            out.push(line);
            assert(texts(out@) =~= all.take(k as int + 1));
            k += 1;
        }
        assert(texts(out@) =~= all);
        Ok(join_texts(&out, "\n"))
    }
}

/// What a note has to have to be found.
pub struct Filter {
    pub project: Option<String>,
    pub kind: Option<String>,
    pub status: Option<String>,
    pub title: Option<String>,
    pub tags: Vec<String>,
}

/// The content of a [`Filter`].
pub struct FilterView {
    pub project: Option<Seq<char>>,
    pub kind: Option<Seq<char>>,
    pub status: Option<Seq<char>>,
    pub title: Option<Seq<char>>,
    pub tags: Seq<Seq<char>>,
}

impl View for Filter {
    type V = FilterView;

    open spec fn view(&self) -> FilterView {
        FilterView {
            project: opt_text(self.project),
            kind: opt_text(self.kind),
            status: opt_text(self.status),
            title: opt_text(self.title),
            tags: texts(self.tags@),
        }
    }
}

/// A field in lower case, where it is a string.
pub open spec fn lower_field(args: JVal, key: Seq<char>) -> Option<Seq<char>> {
    match args.field(key).as_text() {
        Some(s) => Some(lowercase(s)),
        None => None,
    }
}

/// The tags of a comma-separated list, in lower case, without empty ones.
pub open spec fn tag_list(parts: Seq<Seq<char>>) -> Seq<Seq<char>>
    decreases parts.len(),
{
    if parts.len() == 0 {
        Seq::empty()
    } else {
        let before = tag_list(parts.drop_last());
        let t = lowercase(trim(parts.last()));
        if t.len() == 0 {
            before
        } else {
            before.push(t)
        }
    }
}

/// The filter that a request asks for.
pub open spec fn filter_of(args: JVal) -> FilterView {
    FilterView {
        project: lower_field(args, "project"@),
        kind: lower_field(args, "type"@),
        status: lower_field(args, "status"@),
        title: lower_field(args, "title_contains"@),
        tags: match args.field("tags"@).as_text() {
            Some(s) => tag_list(split_on(s, ',')),
            None => Seq::empty(),
        },
    }
}

/// The value of a key in lower case; empty where there is none.
pub open spec fn lower_value(pairs: Pairs, key: Seq<char>) -> Seq<char> {
    match value_of(pairs, key) {
        Some(v) => lowercase(v),
        None => Seq::empty(),
    }
}

/// A value holds what is asked for, where something is.
pub open spec fn holds(value: Seq<char>, asked: Option<Seq<char>>) -> bool {
    match asked {
        Some(a) => has(value, a),
        None => true,
    }
}

/// A note passes a filter: every part of it that is given.
pub open spec fn passes(pairs: Pairs, f: FilterView) -> bool {
    &&& holds(lower_value(pairs, "project"@), f.project)
    &&& holds(lower_value(pairs, "type"@), f.kind)
    &&& f.status is Some ==> lower_value(pairs, "status"@) == f.status->0
    &&& holds(lower_value(pairs, "title"@), f.title)
    &&& forall|i: int|
        0 <= i < f.tags.len() ==> has(
            lowercase(
                match value_of(pairs, "tags"@) {
                    Some(v) => v,
                    None => Seq::empty(),
                },
            ),
            #[trigger] f.tags[i],
        )
}

fn lower_arg(args: &Json, key: &str) -> (r: Option<String>)
    ensures
        opt_text(r) == lower_field(args@, key@),
{
    match args.text_field(key) {
        Some(s) => Some(to_lower(s)),
        None => None,
    }
}

fn read_tags(list: &str) -> (r: Vec<String>)
    ensures
        texts(r@) == tag_list(split_on(list@, ',')),
{
    let parts = split(list, ',');
    let mut out: Vec<String> = Vec::new();
    let n: usize = parts.len();
    let mut i: usize = 0;
    let ghost all = texts(parts@);
    assert(all.take(0) =~= Seq::empty());
    assert(texts(out@) =~= Seq::empty());
    while i < n
        invariant
            i <= n,
            n == parts@.len(),
            all == texts(parts@),
            texts(out@) == tag_list(all.take(i as int)),
        decreases n - i,
    {
        proof {
            assert(all.take(i as int + 1).drop_last() =~= all.take(i as int));
            assert(all[i as int] == parts@[i as int]@);
        }
        let t = trimmed(parts[i].as_str());
        let l = to_lower(t.as_str());
        if !l.as_str().is_empty() {
            proof {
                lemma_texts_push(out@, l);
            }
            out.push(l);
        }
        i += 1;
    }
    assert(all.take(n as int) =~= all);
    out
}

/// Reads the filter of a request.
pub fn read_filter(args: &Json) -> (r: Filter)
    ensures
        r@ == filter_of(args@),
{
    let tags = match args.text_field("tags") {
        Some(s) => read_tags(s),
        None => {
            let v: Vec<String> = Vec::new();
            assert(texts(v@) =~= Seq::empty());
            v
        },
    };
    Filter {
        project: lower_arg(args, "project"),
        kind: lower_arg(args, "type"),
        status: lower_arg(args, "status"),
        title: lower_arg(args, "title_contains"),
        tags,
    }
}

fn lower_lookup(pairs: &Vec<(String, String)>, key: &str) -> (r: String)
    ensures
        r@ == lower_value(pairs_view(pairs@), key@),
{
    match lookup(pairs, key) {
        Some(v) => to_lower(v),
        None => String::new(),
    }
}

fn value_holds(pairs: &Vec<(String, String)>, key: &str, asked: &Option<String>) -> (r: bool)
    ensures
        r == holds(lower_value(pairs_view(pairs@), key@), opt_text(*asked)),
{
    match asked {
        Some(a) => {
            let v = lower_lookup(pairs, key);
            contains(v.as_str(), a.as_str())
        },
        None => true,
    }
}

/// Whether a note passes a filter.
pub fn passes_filter(pairs: &Vec<(String, String)>, f: &Filter) -> (r: bool)
    ensures
        r == passes(pairs_view(pairs@), f@),
{
    if !value_holds(pairs, "project", &f.project) {
        return false;
    }
    if !value_holds(pairs, "type", &f.kind) {
        return false;
    }
    if let Some(s) = &f.status {
        let v = lower_lookup(pairs, "status");
        if !same(v.as_str(), s.as_str()) {
            return false;
        }
    }
    if !value_holds(pairs, "title", &f.title) {
        return false;
    }
    let raw = match lookup(pairs, "tags") {
        Some(v) => to_lower(v),
        None => {
            proof {
                reveal_strlit("");
                assert(""@ =~= Seq::<char>::empty());
            }
            to_lower("")
        },
    };
    let n: usize = f.tags.len();
    let mut i: usize = 0;
    let ghost tags = texts(f.tags@);
    while i < n
        invariant
            i <= n,
            n == f.tags@.len(),
            tags == texts(f.tags@),
            tags == f@.tags,
            raw@ == lowercase(
                match value_of(pairs_view(pairs@), "tags"@) {
                    Some(v) => v,
                    None => Seq::empty(),
                },
            ),
            forall|j: int| 0 <= j < i ==> has(raw@, #[trigger] tags[j]),
        decreases n - i,
    {
        assert(tags[i as int] == f.tags@[i as int]@);
        if !contains(raw.as_str(), f.tags[i].as_str()) {
            return false;
        }
        i += 1;
    }
    true
}

/// A number of hits: twenty by default, from one to a hundred.
pub open spec fn find_count(asked: Option<u64>) -> nat {
    let n = match asked {
        Some(n) => (n as usize) as nat,
        None => 20,
    };
    if n < 1 {
        1
    } else if n > 100 {
        100
    } else {
        n
    }
}

/// The hits among the `k` newest notes, up to a limit.
pub open spec fn hits(root: Seq<char>, fs: Seq<FileView>, f: FilterView, limit: nat, k: nat) -> Seq<
    Seq<char>,
>
    decreases k,
{
    if k == 0 {
        Seq::empty()
    } else {
        let before = hits(root, fs, f, limit, (k - 1) as nat);
        let note = fs[at_rank(fs, k - 1)];
        if before.len() < limit && passes(front_matter(note.content), f) {
            before.push(note_text(root, note))
        } else {
            before
        }
    }
}

/// Once the limit is reached nothing is added.
proof fn lemma_hits_full(root: Seq<char>, fs: Seq<FileView>, f: FilterView, limit: nat, k: nat, n: nat)
    requires
        k <= n,
        hits(root, fs, f, limit, k).len() >= limit,
    ensures
        hits(root, fs, f, limit, n) == hits(root, fs, f, limit, k),
    decreases n - k,
{
    if k < n {
        lemma_hits_full(root, fs, f, limit, k, (n - 1) as nat);
    }
}

/// There are never more hits than the limit allows.
pub proof fn hits_stay_within_the_limit(
    root: Seq<char>,
    fs: Seq<FileView>,
    f: FilterView,
    limit: nat,
    k: nat,
)
    ensures
        hits(root, fs, f, limit, k).len() <= limit,
    decreases k,
{
    if k > 0 {
        hits_stay_within_the_limit(root, fs, f, limit, (k - 1) as nat);
    }
}

/// A request names no field at all.
pub open spec fn asks_nothing(args: JVal) -> bool {
    match args {
        JVal::Obj(f) => f.len() == 0,
        _ => true,
    }
}

/// `vault_find`: the notes whose front matter fits.
pub struct VaultFind {
    vault_root: String,
}

impl VaultFind {
    pub closed spec fn root(&self) -> Seq<char> {
        self.vault_root@
    }

    pub fn new(vault_root: String) -> (r: Self)
        ensures
            r.root() == vault_root@,
    {
        VaultFind { vault_root }
    }

    /// Lists the notes that pass the filter of a request. The files are those
    /// found below the root; none are given where there is no such directory.
    pub fn call(&self, args: &Json, files: Option<&Vec<VaultFile>>) -> (r: Result<String, String>)
        ensures
            if asks_nothing(args@) {
                r is Err && r->Err_0@
                    == "at least one filter is required (project, tags, type, status, or title_contains)"@
            } else {
                match files {
                    None => r is Err && r->Err_0@ == no_vault(self.root()),
                    Some(fs) => {
                        let found = hits(
                            self.root(),
                            files_view(fs@),
                            filter_of(args@),
                            find_count(args@.field("limit"@).as_uint()),
                            fs@.len(),
                        );
                        r is Ok && r->Ok_0@ == (if found.len() == 0 {
                            "(no files matched the given filters)"@
                        } else {
                            join(found, "\n"@)
                        })
                    },
                }
            },
    {
        let nothing: bool = match args {
            Json::Obj(v) => {
                proof {
                    crate::json::lemma_obj_view(*v);
                }
                v.len() == 0
            },
            _ => true,
        };
        if nothing {
            return Err(
                copy(
                    "at least one filter is required (project, tags, type, status, or title_contains)",
                ),
            );
        }
        let asked: usize = match args.uint_field("limit") {
            Some(n) => {
                #[verifier::truncate]
                let m: usize = n as usize;
                m
            },
            None => 20,
        };
        let limit: usize = if asked < 1 {
            1
        } else if asked > 100 {
            100
        } else {
            asked
        };
        let filter = read_filter(args);
        let root = self.vault_root.as_str();
        let fs = match files {
            Some(fs) => fs,
            None => {
                return Err(cat2("vault_root is not a directory: ", root));
            },
        };
        let order = newest_first(fs);
        let n: usize = fs.len();
        let ghost view = files_view(fs@);
        let mut out: Vec<String> = Vec::new();
        let mut k: usize = 0;
        assert(texts(out@) =~= Seq::empty());
        while k < n && out.len() < limit
            invariant
                k <= n,
                n == fs@.len(),
                view == files_view(fs@),
                order@.len() == n,
                forall|k: int|
                    0 <= k < order@.len() ==> 0 <= #[trigger] order@[k] < fs@.len() && order@[k]
                        == at_rank(view, k),
                out@.len() == texts(out@).len(),
                texts(out@) == hits(root@, view, filter@, limit as nat, k as nat),
            decreases n - k,
        {
            let f = &fs[order[k]];
            assert(view[order@[k as int] as int] == f@);
            let pairs = parse_frontmatter(&f.content);
            if passes_filter(&pairs, &filter) {
                let line = note_line(root, f, &pairs);
                proof {
                    lemma_texts_push(out@, line);
                }
                out.push(line);
            }
            k += 1;
        }
        proof {
            if k < n {
                lemma_hits_full(root@, view, filter@, limit as nat, k as nat, n as nat);
            }
        }
        if out.len() == 0 {
            Ok(copy("(no files matched the given filters)"))
        } else {
            Ok(join_texts(&out, "\n"))
        }
    }
}

/// Whether a directory entry is skipped: hidden files and directories are.
pub fn is_hidden(name: &str) -> (r: bool)
    ensures
        r == starts_with(name@, "."@),
{
    begins(name, ".")
}

/// Whether a file is a note, by its name: Markdown, and not hidden.
pub fn is_note(name: &str) -> (r: bool)
    ensures
        r == (!starts_with(name@, "."@) && ends_with(name@, ".md"@)),
{
    !is_hidden(name) && crate::search::ends(name, ".md")
}

} // verus!
