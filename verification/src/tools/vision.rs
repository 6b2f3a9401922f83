//! `look_at_screen`: asks a vision model about the screen.
use vstd::prelude::*;
use vstd::string::*;
use crate::json::{items_view, json_parse, parse, JVal, Json};
use crate::paths::{home_dir, join_path, joined};
use crate::pieces::trimmed;
use crate::search::trim;
use crate::text::{cat2, cat3, cat4, chars_of, copy, text_range};
use crate::tools::shell::CmdOutput;

verus! {

/// Where the vision model is asked by default.
pub const DEFAULT_VISION_URL: &'static str = "http://lnx-rig:8002/v1/chat/completions";

/// The vision model that is asked by default.
pub const DEFAULT_VISION_MODEL: &'static str = "qwen2-vl-2b";

/// What is asked by default.
pub const DEFAULT_QUESTION: &'static str = "Describe in one sentence what's on the screen, focusing on the active window.";

/// Characters of an answer that are kept.
pub const ANSWER_CHAR_CAP: usize = 500;

/// Where the vision model is, and where pictures are saved.
#[derive(Debug)]
pub struct VisionConfig {
    pub url: String,
    pub model: String,
    pub cache_dir: String,
}

impl VisionConfig {
    /// It is the default configuration of a user with this home directory.
    pub open spec fn is_for(&self, home: Seq<char>) -> bool {
        &&& self.url@ == DEFAULT_VISION_URL@
        &&& self.model@ == DEFAULT_VISION_MODEL@
        &&& self.cache_dir@ == joined(home, ".cache/voicectl"@)
    }

    /// The default configuration of a user with this home directory.
    pub fn for_home(home: &str) -> (r: VisionConfig)
        ensures
            r.is_for(home@),
    {
        VisionConfig {
            url: copy(DEFAULT_VISION_URL),
            model: copy(DEFAULT_VISION_MODEL),
            cache_dir: join_path(home, ".cache/voicectl"),
        }
    }
}

/// The configuration of the current user; of the root directory where there is no
/// home.
impl Default for VisionConfig {
    fn default() -> (r: VisionConfig)
        ensures
            exists|home: Seq<char>| r.is_for(home),
    {
        match home_dir() {
            Some(h) => VisionConfig::for_home(h.as_str()),
            None => VisionConfig::for_home("/"),
        }
    }
}

/// `look_at_screen`.
pub struct LookAtScreen {
    cfg: VisionConfig,
}

/// What is asked: the question of the request, unless it is blank.
pub open spec fn question_of(args: JVal) -> Seq<char> {
    match args.field("question"@).as_text() {
        Some(s) => if trim(s).len() > 0 {
            trim(s)
        } else {
            DEFAULT_QUESTION@
        },
        None => DEFAULT_QUESTION@,
    }
}

impl LookAtScreen {
    pub closed spec fn config(&self) -> VisionConfig {
        self.cfg
    }

    pub fn new(cfg: VisionConfig) -> (r: Self)
        ensures
            r.config() == cfg,
    {
        LookAtScreen { cfg }
    }

    /// Where the vision model is.
    pub fn url(&self) -> (r: &str)
        ensures
            r@ == self.config().url@,
    {
        self.cfg.url.as_str()
    }

    /// Where pictures are saved.
    pub fn screenshots_dir(&self) -> (r: String)
        ensures
            r@ == joined(self.config().cache_dir@, "screenshots"@),
    {
        join_path(self.cfg.cache_dir.as_str(), "screenshots")
    }

    /// Where a picture taken at a time is saved.
    pub fn path_for(&self, timestamp: &str) -> (r: String)
        ensures
            r@ == joined(
                joined(self.config().cache_dir@, "screenshots"@),
                "look-"@ + timestamp@ + ".png"@,
            ),
    {
        let dir = self.screenshots_dir();
        let file = cat3("look-", timestamp, ".png");
        join_path(dir.as_str(), file.as_str())
    }

    /// What is asked.
    pub fn question(&self, args: &Json) -> (r: String)
        ensures
            r@ == question_of(args@),
    {
        match args.text_field("question") {
            Some(s) => {
                let t = trimmed(s);
                if t.as_str().is_empty() {
                    copy(DEFAULT_QUESTION)
                } else {
                    t
                }
            },
            None => copy(DEFAULT_QUESTION),
        }
    }

    /// The request about a picture.
    pub fn request(&self, png: &Vec<u8>, args: &Json) -> (r: Json)
        ensures
            r@ == request_json(
                self.config().model@,
                "data:image/png;base64,"@ + base64(png@),
                question_of(args@),
            ),
    {
        let b64 = base64_encode(png.as_slice());
        let data_url = cat2("data:image/png;base64,", b64.as_str());
        let q = self.question(args);
        build_request_body(self.cfg.model.as_str(), data_url.as_str(), q.as_str())
    }

    /// The answer of the vision model, cut to a speakable length.
    pub fn answer(&self, response: &Json) -> (r: Result<String, String>)
        ensures
            crate::tool::answer_view(r) == (match answer_of(response@) {
                Ok(s) => Ok::<Seq<char>, Seq<char>>(cut(s, ANSWER_CHAR_CAP as nat)),
                Err(e) => Err::<Seq<char>, Seq<char>>(e),
            }),
    {
        match parse_answer(response) {
            Ok(s) => Ok(truncate_chars(s.as_str(), ANSWER_CHAR_CAP)),
            Err(e) => Err(e),
        }
    }
}

/// How random the answer may be.
pub open spec fn temperature() -> JVal {
    match json_parse("0.2"@) {
        Ok(v) => v,
        Err(_) => JVal::Null,
    }
}

/// A request about a picture.
pub open spec fn request_json(model: Seq<char>, image: Seq<char>, question: Seq<char>) -> JVal {
    let picture = JVal::object().with("type"@, JVal::Str("image_url"@)).with(
        "image_url"@,
        JVal::object().with("url"@, JVal::Str(image)),
    );
    let text = JVal::object().with("type"@, JVal::Str("text"@)).with("text"@, JVal::Str(question));
    let message = JVal::object().with("role"@, JVal::Str("user"@)).with(
        "content"@,
        JVal::array().plus(picture).plus(text),
    );
    JVal::object().with("model"@, JVal::Str(model)).with("messages"@, JVal::array().plus(message)).with(
        "max_tokens"@,
        JVal::UInt(200),
    ).with("temperature"@, temperature())
}

/// A request about a picture in the OpenAI vision format.
pub fn build_request_body(model: &str, image_data_url: &str, question: &str) -> (r: Json)
    ensures
        r@ == request_json(model@, image_data_url@, question@),
{
    let picture = Json::object().with_text("type", "image_url").with(
        "image_url",
        Json::object().with_text("url", image_data_url),
    );
    let text = Json::object().with_text("type", "text").with_text("text", question);
    let message = Json::object().with_text("role", "user").with(
        "content",
        Json::array().plus(picture).plus(text),
    );
    let temp = match parse("0.2") {
        Ok(v) => v,
        Err(_) => Json::Null,
    };
    Json::object().with_text("model", model).with("messages", Json::array().plus(message)).with(
        "max_tokens",
        Json::UInt(200),
    ).with("temperature", temp)
}

/// The texts of some parts, each on a line of its own.
pub open spec fn parts_text(parts: Seq<JVal>) -> Seq<char>
    decreases parts.len(),
{
    if parts.len() == 0 {
        Seq::empty()
    } else {
        let before = parts_text(parts.drop_last());
        match parts.last().field("text"@).as_text() {
            Some(t) => (if before.len() > 0 {
                before.push('\n')
            } else {
                before
            }) + t,
            None => before,
        }
    }
}

/// The answer in a response, or what is wrong with it.
pub open spec fn answer_of(body: JVal) -> Result<Seq<char>, Seq<char>> {
    match body.field("choices"@) {
        JVal::Arr(choices) => if choices.len() == 0 {
            Err("response 'choices' array is empty"@)
        } else {
            match choices[0].field("message"@).get("content"@) {
                None => Err("response choice has no message.content"@),
                Some(content) => match content {
                    JVal::Str(s) => Ok(trim(s)),
                    JVal::Arr(parts) => if parts_text(parts).len() == 0 {
                        Err("response content array contained no text parts"@)
                    } else {
                        Ok(trim(parts_text(parts)))
                    },
                    _ => Err("response message.content was neither string nor array"@),
                },
            }
        },
        _ => Err("response has no 'choices' array"@),
    }
}

fn join_parts(parts: &Vec<Json>) -> (r: String)
    ensures
        r@ == parts_text(items_view(parts@)),
{
    let mut acc = String::new();
    let n: usize = parts.len();
    let mut i: usize = 0;
    let ghost all = items_view(parts@);
    assert(all.take(0) =~= Seq::empty());
    while i < n
        invariant
            i <= n,
            n == parts@.len(),
            all == items_view(parts@),
            acc@ == parts_text(all.take(i as int)),
        decreases n - i,
    {
        proof {
            assert(all.take(i as int + 1).drop_last() =~= all.take(i as int));
            assert(all[i as int] == parts@[i as int]@);
        }
        if let Some(t) = parts[i].text_field("text") {
            if !acc.as_str().is_empty() {
                acc.push('\n');
            }
            acc.append(t);
        }
        i += 1;
    }
    assert(all.take(n as int) =~= all);
    acc
}

/// The answer in a response: a string, or a list of parts with text.
pub fn parse_answer(body: &Json) -> (r: Result<String, String>)
    ensures
        crate::tool::answer_view(r) == answer_of(body@),
{
    let choices = match body.array_field("choices") {
        Some(c) => c,
        None => {
            return Err(copy("response has no 'choices' array"));
        },
    };
    if choices.len() == 0 {
        return Err(copy("response 'choices' array is empty"));
    }
    assert(items_view(choices@)[0] == choices@[0]@);
    let content = match choices[0].get("message") {
        Some(m) => match m.get("content") {
            Some(c) => c,
            None => {
                return Err(copy("response choice has no message.content"));
            },
        },
        None => {
            return Err(copy("response choice has no message.content"));
        },
    };
    if let Some(s) = content.as_str() {
        return Ok(trimmed(s));
    }
    if let Some(parts) = content.as_array() {
        let acc = join_parts(parts);
        if acc.as_str().is_empty() {
            return Err(copy("response content array contained no text parts"));
        }
        return Ok(trimmed(acc.as_str()));
    }
    Err(copy("response message.content was neither string nor array"))
}

/// A text cut to a number of characters, the last of them an ellipsis.
pub open spec fn cut(s: Seq<char>, cap: nat) -> Seq<char> {
    if s.len() <= cap {
        s
    } else {
        s.take(
            if cap > 0 {
                cap - 1
            } else {
                0
            },
        ).push('…')
    }
}

/// Cuts a text to a number of characters.
pub fn truncate_chars(s: &str, cap: usize) -> (r: String)
    ensures
        r@ == cut(s@, cap as nat),
{
    let v = chars_of(s);
    if v.len() <= cap {
        return copy(s);
    }
    let keep: usize = if cap > 0 {
        cap - 1
    } else {
        0
    };
    let mut out = text_range(&v, 0, keep);
    assert(out@ =~= s@.take(keep as int));
    out.push('…');
    out
}

/// The outcome of taking a picture with the two programs in turn: an error of
/// running either ends the attempt.
pub fn capture_screen(
    first: &Result<CmdOutput, String>,
    exists_after_first: bool,
    second: Option<&Result<CmdOutput, String>>,
    exists_after_second: bool,
) -> (r: Option<Result<(), String>>)
    ensures
        match first {
            Err(e) => r is Some && r->0 is Err && r->0->Err_0@ == e@,
            Ok(out) => if out.status_ok && exists_after_first {
                r == Some(Ok::<(), String>(()))
            } else {
                match second {
                    None => r is None,
                    Some(ran) => match ran {
                        Err(e) => r is Some && r->0 is Err && r->0->Err_0@ == e@,
                        Ok(out2) => if out2.status_ok && exists_after_second {
                            r == Some(Ok::<(), String>(()))
                        } else {
                            r is Some && r->0 is Err && r->0->Err_0@
                                == "no screenshot tool available (tried gnome-screenshot, import)"@
                        },
                    },
                }
            },
        },
{
    match first {
        Err(e) => Some(Err(copy(e.as_str()))),
        Ok(out) => {
            if out.status_ok && exists_after_first {
                return Some(Ok(()));
            }
            match second {
                None => None,
                Some(ran) => match ran {
                    Err(e) => Some(Err(copy(e.as_str()))),
                    Ok(out2) => {
                        if out2.status_ok && exists_after_second {
                            Some(Ok(()))
                        } else {
                            Some(
                                Err(
                                    copy(
                                        "no screenshot tool available (tried gnome-screenshot, import)",
                                    ),
                                ),
                            )
                        }
                    },
                },
            }
        },
    }
}

/// The error of a vision model that refused a request.
pub fn status_error(status: &str, body: &str) -> (r: String)
    ensures
        r@ == "vision endpoint returned "@ + status@ + " — first 200 chars: "@ + (if body@.len()
            <= 200 {
            body@
        } else {
            body@.take(200)
        }),
{
    let head = crate::pieces::take_chars(body, 200);
    cat4("vision endpoint returned ", status, " — first 200 chars: ", head.as_str())
}

/// The character of a value of six bits.
pub open spec fn digit64(n: u8) -> char {
    if n < 26 {
        (65 + n) as char
    } else if n < 52 {
        (71 + n) as char
    } else if n < 62 {
        (n - 4) as char
    } else if n == 62 {
        '+'
    } else {
        '/'
    }
}

/// The six bits that a character stands for.
pub open spec fn value64(c: char) -> int {
    if 'A' <= c <= 'Z' {
        c as u32 - 65
    } else if 'a' <= c <= 'z' {
        c as u32 - 71
    } else if '0' <= c <= '9' {
        c as u32 + 4
    } else if c == '+' {
        62
    } else {
        63
    }
}

/// Bytes in base 64, with padding.
pub open spec fn base64(b: Seq<u8>) -> Seq<char>
    decreases b.len(),
{
    if b.len() == 0 {
        Seq::empty()
    } else if b.len() == 1 {
        seq![digit64(b[0] / 4), digit64((b[0] % 4 * 16) as u8), '=', '=']
    } else if b.len() == 2 {
        seq![
            digit64(b[0] / 4),
            digit64((b[0] % 4 * 16 + b[1] / 16) as u8),
            digit64((b[1] % 16 * 4) as u8),
            '=',
        ]
    } else {
        seq![
            digit64(b[0] / 4),
            digit64((b[0] % 4 * 16 + b[1] / 16) as u8),
            digit64((b[1] % 16 * 4 + b[2] / 64) as u8),
            digit64(b[2] % 64),
        ] + base64(b.skip(3))
    }
}

/// The bytes that a text in base 64 stands for.
pub open spec fn unbase64(s: Seq<char>) -> Seq<u8>
    decreases s.len(),
{
    if s.len() < 4 {
        Seq::empty()
    } else {
        let a = value64(s[0]);
        let b = value64(s[1]);
        let c = value64(s[2]);
        let d = value64(s[3]);
        let first = (a * 4 + b / 16) as u8;
        let second = (b % 16 * 16 + c / 4) as u8;
        let third = (c % 4 * 64 + d) as u8;
        if s[2] == '=' {
            seq![first]
        } else if s[3] == '=' {
            seq![first, second]
        } else {
            seq![first, second, third] + unbase64(s.skip(4))
        }
    }
}

proof fn lemma_digit64(n: u8)
    requires
        n < 64,
    ensures
        value64(digit64(n)) == n,
        digit64(n) != '=',
{
}

/// Decoding gives back the bytes that were encoded.
pub proof fn base64_can_be_undone(b: Seq<u8>)
    ensures
        unbase64(base64(b)) == b,
    decreases b.len(),
{
    let s = base64(b);
    if b.len() == 0 {
        assert(unbase64(s) =~= b);
    } else {
        let x = b[0];
        assert(x / 4 < 64 && x % 4 < 4);
        lemma_digit64(x / 4);
        if b.len() == 1 {
            lemma_digit64((x % 4 * 16) as u8);
            assert(unbase64(s) =~= b);
        } else {
            let y = b[1];
            assert(y / 16 < 16 && y % 16 < 16);
            lemma_digit64((x % 4 * 16 + y / 16) as u8);
            if b.len() == 2 {
                lemma_digit64((y % 16 * 4) as u8);
                assert(unbase64(s) =~= b);
            } else {
                let z = b[2];
                assert(z / 64 < 4 && z % 64 < 64);
                lemma_digit64((y % 16 * 4 + z / 64) as u8);
                lemma_digit64(z % 64);
                base64_can_be_undone(b.skip(3));
                assert(s.skip(4) =~= base64(b.skip(3)));
                assert(seq![x, y, z] + b.skip(3) =~= b);
            }
        }
    }
}

/// Three bytes take four characters, and what is left over takes four more.
pub proof fn base64_length(b: Seq<u8>)
    ensures
        base64(b).len() == (b.len() + 2) / 3 * 4,
    decreases b.len(),
{
    if b.len() > 2 {
        base64_length(b.skip(3));
    }
}

fn digit64_of(n: u8) -> (r: char)
    requires
        n < 64,
    ensures
        r == digit64(n),
{
    if n < 26 {
        (65 + n) as char
    } else if n < 52 {
        (71 + n) as char
    } else if n < 62 {
        (n - 4) as char
    } else if n == 62 {
        '+'
    } else {
        '/'
    }
}

/// Encodes bytes in base 64.
pub fn base64_encode(input: &[u8]) -> (r: String)
    ensures
        r@ == base64(input@),
{
    let n: usize = input.len();
    let mut out = String::new();
    let mut i: usize = 0;
    assert(input@.skip(0) =~= input@);
    assert(out@ + base64(input@) =~= base64(input@));
    while n - i >= 3
        invariant
            i <= n,
            n == input@.len(),
            out@ + base64(input@.skip(i as int)) == base64(input@),
        decreases n - i,
    {
        let x: u8 = input[i];
        let y: u8 = input[i + 1];
        let z: u8 = input[i + 2];
        let ghost rest = input@.skip(i as int);
        let ghost before = out@;
        assert(rest[0] == x && rest[1] == y && rest[2] == z);
        assert(rest.skip(3) =~= input@.skip(i + 3));
        out.push(digit64_of(x / 4));
        out.push(digit64_of(x % 4 * 16 + y / 16));
        out.push(digit64_of(y % 16 * 4 + z / 64));
        out.push(digit64_of(z % 64));
        i += 3;
        assert(out@ + base64(input@.skip(i as int)) =~= before + base64(rest));
    }
    let ghost rest = input@.skip(i as int);
    let ghost before = out@;
    if n - i == 1 {
        let x: u8 = input[i];
        assert(rest[0] == x);
        out.push(digit64_of(x / 4));
        out.push(digit64_of(x % 4 * 16));
        out.push('=');
        out.push('=');
    } else if n - i == 2 {
        let x: u8 = input[i];
        let y: u8 = input[i + 1];
        assert(rest[0] == x && rest[1] == y);
        out.push(digit64_of(x / 4));
        out.push(digit64_of(x % 4 * 16 + y / 16));
        out.push(digit64_of(y % 16 * 4));
        out.push('=');
    }
    assert(out@ =~= before + base64(rest));
    out
}

} // verus!
