//! Desktop tools: applications, links, notifications, the active window,
//! screenshots and the clipboard.
use vstd::prelude::*;
use vstd::string::*;
use crate::message::opt_text;
use crate::paths::{join_path, joined};
use crate::pieces::{lemma_texts_push, listed, split, split_lines, trimmed};
use crate::search::{
    contains, ends_with, has, lines, lowercase, split_on, starts_with, strip_prefix, texts,
    to_lower, trim,
};
use crate::text::{
    byte_len, cat2, cat3, cat4, chars_of, clip, clip_text, copy, same, size, text_range,
};
use crate::tools::shell::CmdOutput;

verus! {

/// Arguments of `open_app`.
#[derive(Debug)]
pub struct OpenAppArgs {
    pub name: String,
}

/// What `open_app` has launched, and how.
#[derive(Debug)]
pub struct OpenAppResult {
    pub launched: String,
    pub via: String,
}

/// `open_app`: launches an application by name.
pub struct OpenApp;

/// An application that is being launched under its own name.
#[derive(Debug)]
pub struct OpenAppRun {
    pub name: String,
}

/// How a launch ended: nothing where it worked. A launcher that is still busy
/// when its time is up has launched the application.
pub open spec fn launch_error(ran: Result<CmdOutput, String>) -> Option<Seq<char>> {
    match ran {
        Ok(out) => if out.status_ok {
            None
        } else {
            Some(trim(out.stderr@))
        },
        Err(e) => if has(e@, "timed out"@) {
            None
        } else {
            Some(e@)
        },
    }
}

/// How a launch ended.
pub fn launch_outcome(ran: &Result<CmdOutput, String>) -> (r: Option<String>)
    ensures
        opt_text(r) == launch_error(*ran),
{
    match ran {
        Ok(out) => if out.status_ok {
            None
        } else {
            Some(trimmed(out.stderr.as_str()))
        },
        Err(e) => if contains(e.as_str(), "timed out") {
            None
        } else {
            Some(copy(e.as_str()))
        },
    }
}

impl OpenApp {
    /// Begins a launch: the name is tried as it is.
    pub fn call(&self, args: &OpenAppArgs) -> (r: Result<OpenAppRun, String>)
        ensures
            match r {
                Ok(run) => trim(args.name@).len() > 0 && run.name@ == trim(args.name@),
                Err(e) => trim(args.name@).len() == 0 && e@ == "name must not be empty"@,
            },
    {
        let name = trimmed(args.name.as_str());
        if name.as_str().is_empty() {
            return Err(copy("name must not be empty"));
        }
        Ok(OpenAppRun { name })
    }
}

impl OpenAppRun {
    /// The result of launching the name as it is; none where it did not work and
    /// a similar name has to be looked for.
    pub fn direct(&self, ran: &Result<CmdOutput, String>) -> (r: Option<OpenAppResult>)
        ensures
            match r {
                Some(x) => launch_error(*ran) is None && x.launched@ == self.name@ && x.via@
                    == "gtk-launch"@,
                None => launch_error(*ran) is Some,
            },
    {
        match launch_outcome(ran) {
            None => Some(
                OpenAppResult { launched: copy(self.name.as_str()), via: copy("gtk-launch") },
            ),
            Some(_) => None,
        }
    }

    /// The result of launching a similar name.
    pub fn similar(&self, id: &str, ran: &Result<CmdOutput, String>) -> (r: Result<
        OpenAppResult,
        String,
    >)
        ensures
            match launch_error(*ran) {
                None => r is Ok && r->Ok_0.launched@ == id@ && r->Ok_0.via@
                    == "gtk-launch (fuzzy)"@,
                Some(e) => r is Err && r->Err_0@ == "gtk-launch "@ + id@ + " failed: "@ + e,
            },
    {
        match launch_outcome(ran) {
            None => Ok(OpenAppResult { launched: copy(id), via: copy("gtk-launch (fuzzy)") }),
            Some(e) => Err(cat4("gtk-launch ", id, " failed: ", e.as_str())),
        }
    }

    /// The error where no similar name was found.
    pub fn not_found(&self) -> (r: String)
        ensures
            r@ == "no .desktop entry matched '"@ + self.name@
                + "' (tried gtk-launch and ~/.local/share/applications + /usr/share/applications)"@,
    {
        cat3(
            "no .desktop entry matched '",
            self.name.as_str(),
            "' (tried gtk-launch and ~/.local/share/applications + /usr/share/applications)",
        )
    }
}

/// A desktop entry: the file's name without its extension, and its text.
#[derive(Debug)]
pub struct DesktopFile {
    pub stem: String,
    pub contents: String,
}

/// The stem of a desktop entry's file name; `None` where the file is none.
pub open spec fn entry_stem(name: Seq<char>) -> Option<Seq<char>> {
    let ext = ".desktop"@;
    if name.len() > ext.len() && ends_with(name, ext) {
        Some(name.take(name.len() - ext.len()))
    } else {
        None
    }
}

/// The stem of a desktop entry's file name; `None` where the file is none.
pub fn desktop_stem(name: &str) -> (r: Option<String>)
    ensures
        opt_text(r) == entry_stem(name@),
{
    proof {
        reveal_strlit(".desktop");
    }
    let v = chars_of(name);
    let n: usize = v.len();
    if n > 8 && crate::search::ends(name, ".desktop") {
        let r = text_range(&v, 0, n - 8);
        assert(r@ =~= name@.take(n - 8));
        Some(r)
    } else {
        None
    }
}

/// What a desktop entry says of its application.
pub struct Entry {
    pub name: Option<String>,
    pub categories: Vec<String>,
    pub hidden: bool,
}

/// The content of an [`Entry`].
pub struct EntryView {
    pub name: Option<Seq<char>>,
    pub categories: Seq<Seq<char>>,
    pub hidden: bool,
}

impl View for Entry {
    type V = EntryView;

    open spec fn view(&self) -> EntryView {
        EntryView {
            name: opt_text(self.name),
            categories: texts(self.categories@),
            hidden: self.hidden,
        }
    }
}

/// The pieces that are not empty.
pub open spec fn non_empty_pieces(parts: Seq<Seq<char>>) -> Seq<Seq<char>>
    decreases parts.len(),
{
    if parts.len() == 0 {
        Seq::empty()
    } else {
        let before = non_empty_pieces(parts.drop_last());
        if parts.last().len() == 0 {
            before
        } else {
            before.push(parts.last())
        }
    }
}

/// An entry after one more line.
pub open spec fn entry_line(e: EntryView, line: Seq<char>) -> EntryView {
    if starts_with(line, "Name="@) {
        match e.name {
            Some(_) => e,
            None => EntryView { name: Some(line.skip("Name="@.len() as int)), ..e },
        }
    } else if starts_with(line, "Categories="@) {
        EntryView {
            categories: non_empty_pieces(
                split_on(line.skip("Categories="@.len() as int), ';'),
            ),
            ..e
        }
    } else if trim(line) == "NoDisplay=true"@ {
        EntryView { hidden: true, ..e }
    } else {
        e
    }
}

/// What the lines of an entry say.
pub open spec fn entry_lines(ls: Seq<Seq<char>>) -> EntryView
    decreases ls.len(),
{
    if ls.len() == 0 {
        EntryView { name: None, categories: Seq::empty(), hidden: false }
    } else {
        entry_line(entry_lines(ls.drop_last()), ls.last())
    }
}

fn keep_non_empty(parts: Vec<String>) -> (r: Vec<String>)
    ensures
        texts(r@) == non_empty_pieces(texts(parts@)),
{
    let mut out: Vec<String> = Vec::new();
    let n: usize = parts.len();
    let mut i: usize = 0;
    let ghost all = texts(parts@);
    assert(all.take(0) =~= Seq::empty());
    assert(texts(out@) =~= Seq::empty());
    while i < n
        invariant
            i <= n,
            n == parts@.len(),
            all == texts(parts@),
            texts(out@) == non_empty_pieces(all.take(i as int)),
        decreases n - i,
    {
        proof {
            assert(all.take(i as int + 1).drop_last() =~= all.take(i as int));
            assert(all[i as int] == parts@[i as int]@);
        }
        if !parts[i].as_str().is_empty() {
            let s = copy(parts[i].as_str());
            proof {
                lemma_texts_push(out@, s);
            }
            out.push(s);
        }
        i += 1;
    }
    assert(all.take(n as int) =~= all);
    out
}

/// Reads a desktop entry.
pub fn parse_entry(contents: &str) -> (r: Entry)
    ensures
        r@ == entry_lines(lines(contents@)),
{
    let ls = split_lines(contents);
    let n: usize = ls.len();
    let mut i: usize = 0;
    let mut e = Entry { name: None, categories: Vec::new(), hidden: false };
    let ghost all = lines(contents@);
    assert(all.take(0) =~= Seq::empty());
    assert(e@.categories =~= Seq::empty());
    while i < n
        invariant
            i <= n,
            n == ls@.len(),
            all == texts(ls@),
            e@ == entry_lines(all.take(i as int)),
        decreases n - i,
    {
        proof {
            assert(all.take(i as int + 1).drop_last() =~= all.take(i as int));
            assert(all[i as int] == ls@[i as int]@);
        }
        let line = ls[i].as_str();
        if let Some(rest) = strip_prefix(line, "Name=") {
            if e.name.is_none() {
                e.name = Some(rest);
            }
        } else if let Some(rest) = strip_prefix(line, "Categories=") {
            e.categories = keep_non_empty(split(rest.as_str(), ';'));
        } else {
            let t = trimmed(line);
            if same(t.as_str(), "NoDisplay=true") {
                e.hidden = true;
            }
        }
        i += 1;
    }
    assert(all.take(n as int) =~= all);
    e
}

/// The categories that an everyday word stands for.
pub open spec fn categories_of(word: Seq<char>) -> Seq<Seq<char>> {
    if word == "terminal"@ {
        seq!["TerminalEmulator"@]
    } else if word == "browser"@ {
        seq!["WebBrowser"@]
    } else if word == "editor"@ {
        seq!["TextEditor"@, "IDE"@, "Development"@]
    } else if word == "file manager"@ || word == "files"@ {
        seq!["FileManager"@]
    } else if word == "calculator"@ {
        seq!["Calculator"@]
    } else if word == "video"@ {
        seq!["AudioVideo"@, "Video"@, "Player"@]
    } else if word == "music"@ {
        seq!["AudioVideo"@, "Audio"@, "Player"@]
    } else if word == "image"@ {
        seq!["Graphics"@, "RasterGraphics"@, "Photography"@]
    } else if word == "settings"@ {
        seq!["Settings"@]
    } else {
        Seq::empty()
    }
}

fn one(a: &str) -> (r: Vec<String>)
    ensures
        texts(r@) == seq![a@],
{
    let mut v: Vec<String> = Vec::new();
    v.push(copy(a));
    assert(texts(v@) =~= seq![a@]);
    v
}

fn three(a: &str, b: &str, c: &str) -> (r: Vec<String>)
    ensures
        texts(r@) == seq![a@, b@, c@],
{
    let mut v: Vec<String> = Vec::new();
    v.push(copy(a));
    v.push(copy(b));
    v.push(copy(c));
    assert(texts(v@) =~= seq![a@, b@, c@]);
    v
}

/// The categories that an everyday word stands for.
pub fn aliased_categories(word: &str) -> (r: Vec<String>)
    ensures
        texts(r@) == categories_of(word@),
{
    if same(word, "terminal") {
        one("TerminalEmulator")
    } else if same(word, "browser") {
        one("WebBrowser")
    } else if same(word, "editor") {
        three("TextEditor", "IDE", "Development")
    } else if same(word, "file manager") || same(word, "files") {
        one("FileManager")
    } else if same(word, "calculator") {
        one("Calculator")
    } else if same(word, "video") {
        three("AudioVideo", "Video", "Player")
    } else if same(word, "music") {
        three("AudioVideo", "Audio", "Player")
    } else if same(word, "image") {
        three("Graphics", "RasterGraphics", "Photography")
    } else if same(word, "settings") {
        one("Settings")
    } else {
        let v: Vec<String> = Vec::new();
        assert(texts(v@) =~= Seq::empty());
        v
    }
}

/// Two lists have an item in common.
pub open spec fn overlap(a: Seq<Seq<char>>, b: Seq<Seq<char>>) -> bool {
    exists|i: int| 0 <= i < a.len() && b.contains(#[trigger] a[i])
}

/// How well an entry fits a query, both in lower case: the lower, the better;
/// none where it does not fit or is not meant to be shown.
pub open spec fn score(
    query: Seq<char>,
    stem: Seq<char>,
    name: Seq<char>,
    e: EntryView,
    wanted: Seq<Seq<char>>,
) -> Option<u8> {
    if e.hidden {
        None
    } else if name == query {
        Some(2)
    } else if has(stem, query) {
        Some(3)
    } else if name.len() > 0 && has(name, query) {
        Some(4)
    } else if overlap(e.categories, wanted) {
        Some(5)
    } else {
        None
    }
}

fn lists_overlap(a: &Vec<String>, b: &Vec<String>) -> (r: bool)
    ensures
        r == overlap(texts(a@), texts(b@)),
{
    let n: usize = a.len();
    let mut i: usize = 0;
    let ghost all = texts(a@);
    while i < n
        invariant
            i <= n,
            n == a@.len(),
            all == texts(a@),
            forall|j: int| 0 <= j < i ==> !texts(b@).contains(#[trigger] all[j]),
        decreases n - i,
    {
        assert(all[i as int] == a@[i as int]@);
        if listed(b, a[i].as_str()) {
            return true;
        }
        i += 1;
    }
    false
}

/// How well an entry fits a query.
pub fn score_entry(query: &str, stem: &str, name: &str, e: &Entry, wanted: &Vec<String>) -> (r:
    Option<u8>)
    ensures
        r == score(query@, stem@, name@, e@, texts(wanted@)),
{
    if e.hidden {
        None
    } else if same(name, query) {
        Some(2)
    } else if contains(stem, query) {
        Some(3)
    } else if !name.is_empty() && contains(name, query) {
        Some(4)
    } else if lists_overlap(&e.categories, wanted) {
        Some(5)
    } else {
        None
    }
}

/// The best entry so far: how well it fits, and its stem.
pub type BestView = Option<(u8, Seq<char>)>;

/// The better of two entries: the better fit, then the shorter stem, then the
/// earlier one.
pub open spec fn better(best: BestView, fit: Option<u8>, stem: Seq<char>) -> BestView {
    match fit {
        None => best,
        Some(s) => match best {
            Some((t, old)) => if t < s || (t == s && byte_len(old) <= byte_len(stem)) {
                best
            } else {
                Some((s, stem))
            },
            None => Some((s, stem)),
        },
    }
}

/// How well a file fits a query.
pub open spec fn file_score(f: (Seq<char>, Seq<char>), query: Seq<char>) -> Option<u8> {
    let e = entry_lines(lines(f.1));
    let name = match e.name {
        Some(n) => n,
        None => Seq::empty(),
    };
    score(query, lowercase(f.0), lowercase(name), e, categories_of(query))
}

/// The entry that fits a query best: the first whose stem is the query, or the
/// best of all.
pub open spec fn pick(files: Seq<(Seq<char>, Seq<char>)>, best: BestView, query: Seq<char>) -> Option<
    Seq<char>,
>
    decreases files.len(),
{
    if files.len() == 0 {
        match best {
            Some((_, stem)) => Some(stem),
            None => None,
        }
    } else if lowercase(files[0].0) == query {
        Some(files[0].0)
    } else {
        pick(
            files.drop_first(),
            better(best, file_score(files[0], query), files[0].0),
            query,
        )
    }
}

pub open spec fn files_view(v: Seq<DesktopFile>) -> Seq<(Seq<char>, Seq<char>)> {
    v.map_values(|f: DesktopFile| (f.stem@, f.contents@))
}

/// The desktop entry that fits a name best.
pub fn fuzzy_desktop_id(name: &str, files: &Vec<DesktopFile>) -> (r: Option<String>)
    ensures
        opt_text(r) == pick(files_view(files@), None, lowercase(trim(name@))),
{
    let t = trimmed(name);
    let query = to_lower(t.as_str());
    let wanted = aliased_categories(query.as_str());
    let ghost all = files_view(files@);
    let mut best: Option<(u8, String)> = None;
    let ghost mut bv: BestView = None;
    let n: usize = files.len();
    let mut i: usize = 0;
    assert(all.skip(0) =~= all);
    while i < n
        invariant
            i <= n,
            n == files@.len(),
            all == files_view(files@),
            query@ == lowercase(trim(name@)),
            texts(wanted@) == categories_of(query@),
            bv == (match best {
                Some((s, stem)) => Some((s, stem@)),
                None => None,
            }),
            pick(all, None, query@) == pick(all.skip(i as int), bv, query@),
        decreases n - i,
    {
        let f = &files[i];
        proof {
            assert(all.skip(i as int)[0] == (f.stem@, f.contents@));
            assert(all.skip(i as int).drop_first() =~= all.skip(i as int + 1));
        }
        let stem_lower = to_lower(f.stem.as_str());
        if same(stem_lower.as_str(), query.as_str()) {
            return Some(copy(f.stem.as_str()));
        }
        let e = parse_entry(f.contents.as_str());
        let name_lower = match &e.name {
            Some(s) => to_lower(s.as_str()),
            None => to_lower(""),
        };
        proof {
            reveal_strlit("");
            assert(""@ =~= Seq::<char>::empty());
        }
        let fit = score_entry(query.as_str(), stem_lower.as_str(), name_lower.as_str(), &e, &wanted);
        let ghost next = better(bv, fit, f.stem@);
        if let Some(s) = fit {
            let replace: bool = match &best {
                Some((t, old)) => !(*t < s || (*t == s && size(old.as_str()) <= size(
                    f.stem.as_str(),
                ))),
                None => true,
            };
            if replace {
                best = Some((s, copy(f.stem.as_str())));
            }
        }
        proof {
            bv = next;
        }
        i += 1;
    }
    assert(all.skip(i as int) =~= Seq::empty());
    match best {
        Some((_, stem)) => Some(stem),
        None => None,
    }
}

/// An entry whose stem is the query is found before any other: the first such.
pub proof fn an_exact_stem_wins(
    files: Seq<(Seq<char>, Seq<char>)>,
    best: BestView,
    query: Seq<char>,
    i: int,
)
    requires
        0 <= i < files.len(),
        lowercase(files[i].0) == query,
        forall|j: int| 0 <= j < i ==> lowercase((#[trigger] files[j]).0) != query,
    ensures
        pick(files, best, query) == Some(files[i].0),
    decreases files.len(),
{
    if i > 0 {
        let rest = files.drop_first();
        assert(rest[i - 1] == files[i]);
        assert forall|j: int| 0 <= j < i - 1 implies lowercase((#[trigger] rest[j]).0) != query by {
            assert(rest[j] == files[j + 1]);
        }
        assert(lowercase(files[0].0) != query);
        an_exact_stem_wins(
            rest,
            better(best, file_score(files[0], query), files[0].0),
            query,
            i - 1,
        );
    }
}

/// Without an exact stem, something is found exactly where some entry fits.
pub proof fn something_is_found_where_something_fits(
    files: Seq<(Seq<char>, Seq<char>)>,
    best: BestView,
    query: Seq<char>,
)
    requires
        forall|j: int| 0 <= j < files.len() ==> lowercase((#[trigger] files[j]).0) != query,
    ensures
        (pick(files, best, query) is Some) == (best is Some || exists|j: int|
            0 <= j < files.len() && file_score(#[trigger] files[j], query) is Some),
    decreases files.len(),
{
    if files.len() > 0 {
        let rest = files.drop_first();
        let next = better(best, file_score(files[0], query), files[0].0);
        assert forall|j: int| 0 <= j < rest.len() implies lowercase((#[trigger] rest[j]).0)
            != query by {
            assert(rest[j] == files[j + 1]);
        }
        assert(lowercase(files[0].0) != query);
        something_is_found_where_something_fits(rest, next, query);
        if exists|j: int| 0 <= j < rest.len() && file_score(#[trigger] rest[j], query) is Some {
            let j = choose|j: int|
                0 <= j < rest.len() && file_score(#[trigger] rest[j], query) is Some;
            assert(files[j + 1] == rest[j]);
        }
        if exists|j: int| 0 <= j < files.len() && file_score(#[trigger] files[j], query) is Some {
            let j = choose|j: int|
                0 <= j < files.len() && file_score(#[trigger] files[j], query) is Some;
            if j > 0 {
                assert(rest[j - 1] == files[j]);
            }
        }
    }
}

/// Arguments of `open_url`.
#[derive(Debug)]
pub struct OpenUrlArgs {
    pub url: String,
}

/// What `open_url` has opened.
#[derive(Debug)]
pub struct OpenUrlResult {
    pub opened: String,
}

/// `open_url`: opens a link.
pub struct OpenUrl;

/// The scheme of a URL, or the error's text where it is none.
pub uninterp spec fn url_scheme(s: Seq<char>) -> Result<Seq<char>, Seq<char>>;

/// `url::Url::parse` and the scheme of what it read. The result is named
/// [`url_scheme`]; an error is given by its text.
#[verifier::external_body]
fn parse_scheme(s: &str) -> (r: Result<String, String>)
    ensures
        match r {
            Ok(x) => url_scheme(s@) == Ok::<Seq<char>, Seq<char>>(x@),
            Err(e) => url_scheme(s@) == Err::<Seq<char>, Seq<char>>(e@),
        },
{
    url::Url::parse(s).map(|u| u.scheme().to_string()).map_err(|e| e.to_string())
}

/// Why a URL may not be opened, if it may not.
pub open spec fn url_error(scheme: Result<Seq<char>, Seq<char>>) -> Option<Seq<char>> {
    match scheme {
        Err(e) => Some("invalid URL: "@ + e),
        Ok(s) => if s == "http"@ || s == "https"@ || s == "mailto"@ {
            None
        } else {
            Some("scheme '"@ + s + "' is not allowed (only http/https/mailto)"@)
        },
    }
}

/// Checks the scheme of a URL.
pub fn check_scheme(scheme: &Result<String, String>) -> (r: Result<(), String>)
    ensures
        crate::tools::computer::unit_result(r) == url_error(crate::tool::answer_view(*scheme)),
{
    match scheme {
        Err(e) => Err(cat2("invalid URL: ", e.as_str())),
        Ok(s) => {
            if same(s.as_str(), "http") || same(s.as_str(), "https") || same(s.as_str(), "mailto") {
                Ok(())
            } else {
                Err(cat3("scheme '", s.as_str(), "' is not allowed (only http/https/mailto)"))
            }
        },
    }
}

/// Checks that a URL may be opened: only web pages and mail addresses.
pub fn validate_url(s: &str) -> (r: Result<(), String>)
    ensures
        crate::tools::computer::unit_result(r) == url_error(url_scheme(s@)),
{
    check_scheme(&parse_scheme(s))
}

/// The error of a program that failed.
pub open spec fn program_error(program: Seq<char>, out: CmdOutput) -> Option<Seq<char>> {
    if out.status_ok {
        None
    } else {
        Some(program + " failed: "@ + trim(out.stderr@))
    }
}

fn failure(program: &str, out: &CmdOutput) -> (r: Option<String>)
    ensures
        opt_text(r) == program_error(program@, *out),
{
    if out.status_ok {
        None
    } else {
        let t = trimmed(out.stderr.as_str());
        Some(cat3(program, " failed: ", t.as_str()))
    }
}

impl OpenUrl {
    /// The result of opening a link.
    pub fn finish(&self, args: &OpenUrlArgs, out: &CmdOutput) -> (r: Result<OpenUrlResult, String>)
        ensures
            match r {
                Ok(x) => out.status_ok && x.opened@ == args.url@,
                Err(e) => program_error("xdg-open"@, *out) == Some(e@),
            },
    {
        match failure("xdg-open", out) {
            Some(e) => Err(e),
            None => Ok(OpenUrlResult { opened: copy(args.url.as_str()) }),
        }
    }
}

/// Arguments of `notification`.
#[derive(Debug)]
pub struct NotificationArgs {
    pub title: String,
    pub body: Option<String>,
}

/// Whether `notification` has shown something.
#[derive(Debug)]
pub struct NotificationResult {
    pub sent: bool,
}

/// `notification`: shows a message.
pub struct Notification;

impl Notification {
    /// The arguments of the program that shows the message.
    pub fn call(&self, args: &NotificationArgs) -> (r: Result<Vec<String>, String>)
        ensures
            match r {
                Ok(v) => trim(args.title@).len() > 0 && texts(v@) == (match args.body {
                    Some(b) => seq![args.title@, b@],
                    None => seq![args.title@],
                }),
                Err(e) => trim(args.title@).len() == 0 && e@ == "title must not be empty"@,
            },
    {
        let t = trimmed(args.title.as_str());
        if t.as_str().is_empty() {
            return Err(copy("title must not be empty"));
        }
        let mut v: Vec<String> = Vec::new();
        v.push(copy(args.title.as_str()));
        match &args.body {
            Some(b) => {
                v.push(copy(b.as_str()));
                assert(texts(v@) =~= seq![args.title@, b@]);
            },
            None => {
                assert(texts(v@) =~= seq![args.title@]);
            },
        }
        Ok(v)
    }

    /// The result of showing the message.
    pub fn finish(&self, out: &CmdOutput) -> (r: Result<NotificationResult, String>)
        ensures
            match r {
                Ok(x) => out.status_ok && x.sent,
                Err(e) => program_error("notify-send"@, *out) == Some(e@),
            },
    {
        match failure("notify-send", out) {
            Some(e) => Err(e),
            None => Ok(NotificationResult { sent: true }),
        }
    }
}

/// Arguments of `current_window`: none.
#[derive(Debug)]
pub struct CurrentWindowArgs {}

/// The focused window.
#[derive(Debug)]
pub struct CurrentWindowResult {
    pub title: String,
    pub wm_class: String,
}

/// `current_window`: tells which window is focused.
pub struct CurrentWindow;

impl CurrentWindow {
    /// The focused window, from what was printed of its title and its class.
    pub fn call(&self, title: &CmdOutput, class: &CmdOutput) -> (r: CurrentWindowResult)
        ensures
            r.title@ == trim(title.stdout@),
            r.wm_class@ == trim(class.stdout@),
    {
        CurrentWindowResult {
            title: trimmed(title.stdout.as_str()),
            wm_class: trimmed(class.stdout.as_str()),
        }
    }
}

/// `screenshot`: saves a picture of the screen.
pub struct Screenshot {
    cache_dir: String,
}

impl Screenshot {
    pub closed spec fn cache(&self) -> Seq<char> {
        self.cache_dir@
    }

    pub fn new(cache_dir: String) -> (r: Self)
        ensures
            r.cache() == cache_dir@,
    {
        Screenshot { cache_dir }
    }

    /// Where pictures are saved.
    pub fn screenshots_dir(&self) -> (r: String)
        ensures
            r@ == joined(self.cache(), "screenshots"@),
    {
        join_path(self.cache_dir.as_str(), "screenshots")
    }

    /// Where a picture taken at a time is saved.
    pub fn path_for(&self, timestamp: &str) -> (r: String)
        ensures
            r@ == joined(joined(self.cache(), "screenshots"@), timestamp@ + ".png"@),
    {
        let dir = self.screenshots_dir();
        let file = cat2(timestamp, ".png");
        join_path(dir.as_str(), file.as_str())
    }

    /// The result: the path, where one of the two programs has written it.
    pub fn finish(&self, path: &str, first_wrote: bool, second_wrote: bool) -> (r: Result<
        String,
        String,
    >)
        ensures
            match r {
                Ok(s) => (first_wrote || second_wrote) && s@ == "{\"path\":\""@ + path@ + "\"}"@,
                Err(e) => !first_wrote && !second_wrote && e@
                    == "no screenshot tool available (tried gnome-screenshot, import)"@,
            },
    {
        if first_wrote || second_wrote {
            Ok(cat3("{\"path\":\"", path, "\"}"))
        } else {
            Err(copy("no screenshot tool available (tried gnome-screenshot, import)"))
        }
    }
}

/// Whether a program that takes a picture has succeeded, or its error output.
pub fn try_screenshot(out: &CmdOutput) -> (r: Result<(), String>)
    ensures
        crate::tools::computer::unit_result(r) == (if out.status_ok {
            None
        } else {
            Some(out.stderr@)
        }),
{
    if out.status_ok {
        Ok(())
    } else {
        Err(copy(out.stderr.as_str()))
    }
}

/// Arguments of `clipboard_get`: none.
#[derive(Debug)]
pub struct ClipboardGetArgs {}

/// The text of the clipboard.
#[derive(Debug)]
pub struct ClipboardGetResult {
    pub text: String,
    pub truncated: bool,
}

/// `clipboard_get`: reads the clipboard.
pub struct ClipboardGet;

/// Bytes of the clipboard that are read.
pub const CLIPBOARD_MAX: usize = 4096;

/// The outcome of reading the clipboard: the text and whether it was cut, or an
/// error.
pub open spec fn clipboard(out: CmdOutput) -> Result<(Seq<char>, bool), Seq<char>> {
    if !out.status_ok {
        if trim(out.stderr@).len() == 0 {
            Ok((Seq::empty(), false))
        } else {
            Err("xclip failed: "@ + trim(out.stderr@))
        }
    } else if byte_len(out.stdout@) <= CLIPBOARD_MAX {
        Ok((out.stdout@, false))
    } else {
        Ok(
            (
                clip(out.stdout@, CLIPBOARD_MAX as nat)
                    + "\n…[truncated; clipboard exceeded 4KB cap]"@,
                true,
            ),
        )
    }
}

impl ClipboardGet {
    /// The text of the clipboard, from what was printed of it.
    pub fn call(&self, out: &CmdOutput) -> (r: Result<ClipboardGetResult, String>)
        ensures
            match r {
                Ok(x) => clipboard(*out) == Ok::<(Seq<char>, bool), Seq<char>>(
                    (x.text@, x.truncated),
                ),
                Err(e) => clipboard(*out) == Err::<(Seq<char>, bool), Seq<char>>(e@),
            },
    {
        if !out.status_ok {
            let msg = trimmed(out.stderr.as_str());
            if msg.as_str().is_empty() {
                return Ok(ClipboardGetResult { text: String::new(), truncated: false });
            }
            return Err(cat2("xclip failed: ", msg.as_str()));
        }
        if size(out.stdout.as_str()) <= CLIPBOARD_MAX {
            return Ok(ClipboardGetResult { text: copy(out.stdout.as_str()), truncated: false });
        }
        let mut text = clip_text(out.stdout.as_str(), CLIPBOARD_MAX);
        text.append("\n…[truncated; clipboard exceeded 4KB cap]");
        Ok(ClipboardGetResult { text, truncated: true })
    }
}

} // verus!
