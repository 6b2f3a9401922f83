//! The agent: conversation, limits, send window and tool-output framing.
//!
//! Tool results reach the model wrapped as
//! `<tool_output name="..." id="...">...</tool_output>`. Whatever stands inside
//! such an envelope is data, never an instruction.
use vstd::prelude::*;
use vstd::string::*;
use crate::decimal::{dec, decimal};
use crate::message::{copy_messages, messages_view, plain_view, Message, MessageView};
use crate::pieces::take_chars;
use crate::step::{StepRun, RunView};
use crate::store_trait::StoreError;
use crate::table::Table;
use crate::text::{byte_len, cat2, cat3, chars_of, clip, clip_text, copy, same, size};
use crate::tool::Registry;

verus! {

/// Default cap on the bytes of a tool result.
pub const DEFAULT_MAX_TOOL_RESULT_BYTES: usize = 65536;

/// Default cap on the characters of a tool result.
pub const DEFAULT_MAX_TOOL_OUTPUT_CHARS: usize = 8000;

/// Limits on one tool for the duration of a single step. An absent limit means
/// that there is none.
#[derive(Clone, Copy, Debug)]
pub struct ToolQuota {
    /// How often the tool may be called.
    pub max_calls: Option<u32>,
    /// Total time that the tool's calls may take, in microseconds. Checked at
    /// turn boundaries.
    pub max_duration_us: Option<u64>,
    /// Bytes of output per call, applied before framing.
    pub max_result_bytes: Option<usize>,
}

impl Default for ToolQuota {
    fn default() -> (r: Self)
        ensures
            r == (ToolQuota { max_calls: None, max_duration_us: None, max_result_bytes: None }),
    {
        ToolQuota { max_calls: None, max_duration_us: None, max_result_bytes: None }
    }
}

/// What bounds a step.
pub struct Limits {
    pub max_steps: nat,
    pub max_window: nat,
    pub max_tool_result_bytes: nat,
    pub max_tool_output_chars: nat,
    pub quotas: Map<Seq<char>, ToolQuota>,
    pub max_step_duration: Option<u64>,
}

/// Conversation state with the limits of a step.
pub struct Agent {
    /// The whole conversation.
    pub messages: Vec<Message>,
    /// The tools that the model may call.
    pub tools: Registry,
    /// Inference turns per step.
    pub max_steps: usize,
    /// Messages sent to the backend per turn.
    pub max_window: usize,
    /// Bytes per tool result.
    pub max_tool_result_bytes: usize,
    /// Characters per tool result.
    pub max_tool_output_chars: usize,
    /// Limits per tool name.
    pub tool_quotas: Table<ToolQuota>,
    /// Time that one step may take, in nanoseconds.
    pub max_step_duration: Option<u64>,
    /// Name of the session in the store.
    pub session: String,
    /// Whether tokens are echoed to the terminal when no sink is installed.
    pub stream: bool,
    /// Progress of the current step.
    pub run: StepRun,
}

/// The content of an [`Agent`].
pub struct AgentView {
    pub messages: Seq<MessageView>,
    pub limits: Limits,
    pub run: RunView,
}

impl View for Agent {
    type V = AgentView;

    open spec fn view(&self) -> AgentView {
        AgentView {
            messages: messages_view(self.messages@),
            limits: Limits {
                max_steps: self.max_steps as nat,
                max_window: self.max_window as nat,
                max_tool_result_bytes: self.max_tool_result_bytes as nat,
                max_tool_output_chars: self.max_tool_output_chars as nat,
                quotas: self.tool_quotas@,
                max_step_duration: self.max_step_duration,
            },
            run: self.run@,
        }
    }
}

/// Index of the first user message at or after `i`, or the length.
pub open spec fn next_user(m: Seq<MessageView>, i: int) -> int
    decreases m.len() - i,
{
    if i < 0 || i >= m.len() {
        m.len() as int
    } else if m[i].role == "user"@ {
        i
    } else {
        next_user(m, i + 1)
    }
}

/// Where the send window starts: nowhere when the history fits, else at the
/// first user message among the last `n - 1` messages.
pub open spec fn start_of_window(m: Seq<MessageView>, n: nat) -> Option<int> {
    if m.len() <= n {
        None
    } else {
        Some(next_user(m, m.len() - (n - 1)))
    }
}

/// The messages sent to the backend.
pub open spec fn window(m: Seq<MessageView>, n: nat) -> Seq<MessageView> {
    match start_of_window(m, n) {
        None => m,
        Some(start) => seq![m[0]] + m.skip(start),
    }
}

pub proof fn lemma_next_user(m: Seq<MessageView>, i: int)
    requires
        0 <= i <= m.len(),
    ensures
        i <= next_user(m, i) <= m.len(),
        next_user(m, i) < m.len() ==> m[next_user(m, i)].role == "user"@,
        forall|j: int| i <= j < next_user(m, i) ==> (#[trigger] m[j]).role != "user"@,
    decreases m.len() - i,
{
    if i < m.len() && m[i].role != "user"@ {
        lemma_next_user(m, i + 1);
    }
}

/// A window never exceeds its bound, keeps the first message, ends where the
/// conversation ends, and otherwise starts with a user message, so that a tool
/// result is never sent without the turn that asked for it.
pub proof fn window_is_bounded_and_starts_at_user(m: Seq<MessageView>, n: nat)
    requires
        n > 0,
    ensures
        window(m, n).len() <= n,
        m.len() > 0 ==> window(m, n).len() > 0 && window(m, n)[0] == m[0],
        m.len() > n && window(m, n).len() > 1 ==> window(m, n)[1].role == "user"@,
        m.len() > n ==> window(m, n).skip(1) == m.skip(m.len() - window(m, n).len() + 1),
{
    if m.len() > n {
        let from = m.len() - (n - 1);
        lemma_next_user(m, from);
        let start = next_user(m, from);
        let w = window(m, n);
        assert(w.skip(1) =~= m.skip(start));
        if w.len() > 1 {
            assert(w[1] == m[start]);
        }
    }
}

/// The window is the largest one allowed: a conversation that fits is sent whole, and
/// of a longer one every user message that is near enough to the end is sent, with
/// all that follows it.
pub proof fn window_leaves_out_no_user_message_that_fits(m: Seq<MessageView>, n: nat)
    requires
        n > 0,
    ensures
        m.len() <= n ==> window(m, n) == m,
        m.len() <= n <==> start_of_window(m, n) is None,
        m.len() > n ==> start_of_window(m, n) == Some(m.len() - window(m, n).len() + 1),
        forall|i: int|
            m.len() > n && 0 <= i < m.len() && m.len() - i < n && (#[trigger] m[i]).role
                == "user"@ ==> {
                let w = window(m, n);
                let k = w.len() - (m.len() - i);
                1 <= k < w.len() && w[k] == m[i] && w.skip(k) == m.skip(i)
            },
{
    if m.len() > n {
        let from = m.len() - (n - 1);
        lemma_next_user(m, from);
        let w = window(m, n);
        assert forall|i: int|
            m.len() > n && 0 <= i < m.len() && m.len() - i < n && (#[trigger] m[i]).role
                == "user"@ implies {
            let k = w.len() - (m.len() - i);
            1 <= k < w.len() && w[k] == m[i] && w.skip(k) == m.skip(i)
        } by {
            let k = w.len() - (m.len() - i);
            assert(next_user(m, from) <= i);
            assert(w.skip(k) =~= m.skip(i));
        }
    }
}

/// One character of an attribute value.
pub open spec fn escaped_char(c: char) -> Seq<char> {
    if c == '&' {
        "&amp;"@
    } else if c == '"' {
        "&quot;"@
    } else if c == '<' {
        "&lt;"@
    } else if c == '>' {
        "&gt;"@
    } else {
        seq![c]
    }
}

/// A text as an attribute value.
pub open spec fn escaped(s: Seq<char>) -> Seq<char>
    decreases s.len(),
{
    if s.len() == 0 {
        Seq::empty()
    } else {
        escaped(s.drop_last()) + escaped_char(s.last())
    }
}

/// An escaped text holds no quote and no angle bracket, so it cannot end its
/// attribute or its tag.
pub proof fn escaped_text_stays_in_its_attribute(s: Seq<char>)
    ensures
        forall|i: int|
            0 <= i < escaped(s).len() ==> {
                let c = #[trigger] escaped(s)[i];
                c != '"' && c != '<' && c != '>'
            },
    decreases s.len(),
{
    if s.len() > 0 {
        escaped_text_stays_in_its_attribute(s.drop_last());
        reveal_strlit("&amp;");
        reveal_strlit("&quot;");
        reveal_strlit("&lt;");
        reveal_strlit("&gt;");
        let a = escaped(s.drop_last());
        let b = escaped_char(s.last());
        assert forall|i: int| 0 <= i < escaped(s).len() implies {
            let c = #[trigger] escaped(s)[i];
            c != '"' && c != '<' && c != '>'
        } by {
            if i < a.len() {
                assert(escaped(s)[i] == a[i]);
            } else {
                assert(escaped(s)[i] == b[i - a.len()]);
            }
        }
    }
}

/// Texts are escaped character by character: the four that mean something in markup
/// become entities, and every other one stays as it is.
pub proof fn escaping_goes_by_characters(a: Seq<char>, b: Seq<char>, c: char)
    ensures
        escaped(a + b) == escaped(a) + escaped(b),
        escaped(seq!['&']) == "&amp;"@,
        escaped(seq!['"']) == "&quot;"@,
        escaped(seq!['<']) == "&lt;"@,
        escaped(seq!['>']) == "&gt;"@,
        c != '&' && c != '"' && c != '<' && c != '>' ==> escaped(seq![c]) == seq![c],
    decreases b.len(),
{
    if b.len() == 0 {
        assert(a + b =~= a);
        assert(escaped(a) + escaped(b) =~= escaped(a));
    } else {
        escaping_goes_by_characters(a, b.drop_last(), c);
        assert((a + b).drop_last() =~= a + b.drop_last());
        assert(escaped(a + b) =~= escaped(a) + escaped(b));
    }
    lemma_escaped_one('&');
    lemma_escaped_one('"');
    lemma_escaped_one('<');
    lemma_escaped_one('>');
    lemma_escaped_one(c);
}

proof fn lemma_escaped_one(c: char)
    ensures
        escaped(seq![c]) == escaped_char(c),
{
    assert(escaped(seq![c].drop_last()) =~= Seq::<char>::empty());
    assert(escaped(seq![c]) =~= escaped_char(c));
}

/// The part of a tool result that is kept.
pub open spec fn kept_output(raw: Seq<char>, max_bytes: nat, max_chars: nat) -> Seq<char> {
    let c = clip(raw, max_bytes);
    if c.len() <= max_chars {
        c
    } else {
        c.take(max_chars as int)
    }
}

/// The envelope of a tool result.
pub open spec fn framed(
    name: Seq<char>,
    id: Seq<char>,
    raw: Seq<char>,
    max_bytes: nat,
    max_chars: nat,
) -> Seq<char> {
    let body = kept_output(raw, max_bytes, max_chars);
    let head = "<tool_output name=\""@ + escaped(name) + "\" id=\""@ + escaped(id);
    if body.len() < raw.len() {
        head + ("\" truncated=\"true\" raw_bytes=\""@ + dec(byte_len(raw)) + "\">"@) + body
            + "</tool_output>"@
    } else {
        head + "\">"@ + body + "</tool_output>"@
    }
}

/// What is kept of a tool result is a prefix within both caps; the result is
/// kept whole when it is within them.
pub proof fn kept_output_is_a_bounded_prefix(raw: Seq<char>, max_bytes: nat, max_chars: nat)
    ensures
        byte_len(kept_output(raw, max_bytes, max_chars)) <= max_bytes,
        kept_output(raw, max_bytes, max_chars).len() <= max_chars,
        kept_output(raw, max_bytes, max_chars).len() <= raw.len(),
        kept_output(raw, max_bytes, max_chars) == raw.take(
            kept_output(raw, max_bytes, max_chars).len() as int,
        ),
        byte_len(raw) <= max_bytes && raw.len() <= max_chars ==> kept_output(
            raw,
            max_bytes,
            max_chars,
        ) == raw,
{
    crate::text::clip_is_longest_prefix(raw, max_bytes);
    let c = clip(raw, max_bytes);
    let k = kept_output(raw, max_bytes, max_chars);
    crate::text::lemma_byte_len_take(c, k.len() as int, c.len() as int);
    assert(c.take(c.len() as int) =~= c);
    assert(k =~= c.take(k.len() as int));
    assert(k =~= raw.take(k.len() as int));
}

/// No more of a tool result is cut off than the caps ask for.
pub proof fn kept_output_cannot_be_longer(raw: Seq<char>, max_bytes: nat, max_chars: nat)
    ensures
        ({
            let k = kept_output(raw, max_bytes, max_chars).len() as int;
            k < raw.len() ==> k == max_chars || byte_len(raw.take(k + 1)) > max_bytes
        }),
{
    crate::text::clip_is_longest_prefix(raw, max_bytes);
}

/// A tool result within the caps is framed whole; of a longer one the envelope says
/// that it was cut and how many bytes it had. The envelope names the tool and the
/// call, and the result stands between its two tags.
pub proof fn an_envelope_holds_the_result(
    name: Seq<char>,
    id: Seq<char>,
    raw: Seq<char>,
    max_bytes: nat,
    max_chars: nat,
)
    ensures
        ({
            let open = "<tool_output name=\""@ + escaped(name) + "\" id=\""@ + escaped(id);
            let cut = "\" truncated=\"true\" raw_bytes=\""@ + dec(byte_len(raw)) + "\">"@;
            let text = framed(name, id, raw, max_bytes, max_chars);
            if byte_len(raw) <= max_bytes && raw.len() <= max_chars {
                text == open + "\">"@ + raw + "</tool_output>"@
            } else {
                text == open + cut + kept_output(raw, max_bytes, max_chars) + "</tool_output>"@
            }
        }),
{
    kept_output_is_a_bounded_prefix(raw, max_bytes, max_chars);
    let k = kept_output(raw, max_bytes, max_chars);
    if k.len() == raw.len() {
        assert(raw.take(raw.len() as int) =~= raw);
    }
}

impl Agent {
    /// An agent whose conversation holds only the system prompt.
    pub fn new(system: &str) -> (r: Agent)
        ensures
            r@.messages == seq![plain_view("system"@, system@)],
            r@.limits == (Limits {
                max_steps: 25,
                max_window: 40,
                max_tool_result_bytes: DEFAULT_MAX_TOOL_RESULT_BYTES as nat,
                max_tool_output_chars: DEFAULT_MAX_TOOL_OUTPUT_CHARS as nat,
                quotas: Map::empty(),
                max_step_duration: None,
            }),
            r@.run == RunView::fresh(),
            r.tools@.len() == 0,
            r.session@ == "default"@,
            r.stream,
    {
        let mut messages: Vec<Message> = Vec::new();
        messages.push(Message::plain("system", system));
        let r = Agent {
            messages,
            tools: Registry::new(),
            max_steps: 25,
            max_window: 40,
            max_tool_result_bytes: DEFAULT_MAX_TOOL_RESULT_BYTES,
            max_tool_output_chars: DEFAULT_MAX_TOOL_OUTPUT_CHARS,
            tool_quotas: Table::new(),
            max_step_duration: None,
            session: copy("default"),
            stream: true,
            run: StepRun::new(),
        };
        assert(r@.messages =~= seq![plain_view("system"@, system@)]);
        r
    }

    /// How many of the current messages have to be written to the store before its
    /// session is taken up: all of them where nothing is stored.
    pub fn unsaved(&self, loaded: &Result<Vec<Message>, StoreError>) -> (r: usize)
        ensures
            r == (match loaded {
                Ok(history) if history@.len() == 0 => self@.messages.len(),
                _ => 0,
            }),
    {
        match loaded {
            Ok(history) => if history.len() == 0 {
                self.messages.len()
            } else {
                0
            },
            Err(_) => 0,
        }
    }

    /// Takes up the stored session: a stored history replaces the current one. Where
    /// nothing is stored, `written` tells what came of writing the current messages.
    /// A failure leaves the agent as it is.
    pub fn attach_store(
        &mut self,
        loaded: Result<Vec<Message>, StoreError>,
        written: Result<(), StoreError>,
        session: &str,
    ) -> (r: Result<(), String>)
        ensures
            match (loaded, written) {
                (Err(e), _) => r is Err && r->Err_0@ == e.text() && *final(self) == *old(self),
                (Ok(history), w) => if history@.len() == 0 && w is Err {
                    r is Err && r->Err_0@ == w->Err_0.text() && *final(self) == *old(self)
                } else {
                    &&& r is Ok
                    &&& final(self).session@ == session@
                    &&& final(self)@.limits == old(self)@.limits
                    &&& final(self)@.run == old(self)@.run
                    &&& final(self).tools == old(self).tools
                    &&& final(self).stream == old(self).stream
                    &&& final(self)@.messages == (if history@.len() == 0 {
                        old(self)@.messages
                    } else {
                        messages_view(history@)
                    })
                },
            },
    {
        match loaded {
            Err(e) => Err(e.to_text()),
            Ok(history) => {
                if history.len() == 0 {
                    match written {
                        Err(e) => {
                            return Err(e.to_text());
                        },
                        Ok(()) => {},
                    }
                } else {
                    self.messages = history;
                }
                self.session = copy(session);
                Ok(())
            },
        }
    }

    /// Where the send window starts, or `None` when everything is sent.
    pub fn window_start(&self) -> (r: Option<usize>)
        requires
            self.max_window > 0 || self.messages@.len() == 0,
        ensures
            match r {
                None => start_of_window(self@.messages, self@.limits.max_window) is None,
                Some(s) => start_of_window(self@.messages, self@.limits.max_window) == Some(
                    s as int,
                ) && s <= self.messages@.len(),
            },
    {
        let len: usize = self.messages.len();
        if len <= self.max_window {
            return None;
        }
        let from: usize = len - (self.max_window - 1);
        let mut start: usize = from;
        let ghost m = self@.messages;
        while start < len && !same(self.messages[start].role.as_str(), "user")
            invariant
                from <= start <= len,
                len == self.messages@.len(),
                m == messages_view(self.messages@),
                next_user(m, from as int) == next_user(m, start as int),
            decreases len - start,
        {
            assert(m[start as int].role == self.messages@[start as int].role@);
            start += 1;
        }
        proof {
            if start < len {
                assert(m[start as int].role == self.messages@[start as int].role@);
            }
        }
        Some(start)
    }

    /// The first message followed by those from `start` on.
    pub fn windowed_truncated(&self, start: usize) -> (r: Vec<Message>)
        requires
            0 < self.messages@.len(),
            start <= self.messages@.len(),
        ensures
            messages_view(r@) == seq![self@.messages[0]] + self@.messages.skip(start as int),
    {
        let mut out = copy_messages(&self.messages, 0, 1);
        let mut rest = copy_messages(&self.messages, start, self.messages.len());
        let ghost a = out@;
        let ghost b = rest@;
        out.append(&mut rest);
        proof {
            let m = self@.messages;
            assert(out@ == a + b);
            assert(messages_view(out@) =~= messages_view(a) + messages_view(b));
            assert(messages_view(a) =~= seq![m[0]]);
            assert(messages_view(b) =~= m.skip(start as int));
        }
        out
    }

    /// The messages sent to the backend.
    pub fn windowed(&self) -> (r: Vec<Message>)
        requires
            self.max_window > 0 || self.messages@.len() == 0,
        ensures
            messages_view(r@) == window(self@.messages, self@.limits.max_window),
    {
        match self.window_start() {
            None => {
                let r = copy_messages(&self.messages, 0, self.messages.len());
                assert(messages_view(r@) =~= self@.messages);
                r
            },
            Some(start) => self.windowed_truncated(start),
        }
    }

    /// Wraps a tool result in its envelope, truncated to the caps.
    pub fn frame_tool_output(&self, name: &str, id: &str, raw: &str) -> (r: String)
        ensures
            r@ == framed(
                name@,
                id@,
                raw@,
                self@.limits.max_tool_result_bytes,
                self@.limits.max_tool_output_chars,
            ),
    {
        let clipped = clip_text(raw, self.max_tool_result_bytes);
        let body = take_chars(clipped.as_str(), self.max_tool_output_chars);
        let bytes: usize = size(raw);
        let kept: usize = size(body.as_str());
        proof {
            kept_output_is_a_bounded_prefix(
                raw@,
                self.max_tool_result_bytes as nat,
                self.max_tool_output_chars as nat,
            );
            let k = body@.len() as int;
            crate::text::lemma_byte_len_take(raw@, k, raw@.len() as int);
            assert(raw@.take(raw@.len() as int) =~= raw@);
        }
        let mut out = cat2("<tool_output name=\"", escape_attr(name).as_str());
        out.append("\" id=\"");
        out.append(escape_attr(id).as_str());
        if kept < bytes {
            let n = decimal(bytes as u64);
            let note = cat3("\" truncated=\"true\" raw_bytes=\"", n.as_str(), "\">");
            out.append(note.as_str());
        } else {
            out.append("\">");
        }
        out.append(body.as_str());
        out.append("</tool_output>");
        out
    }
}

/// The text of a caught panic: the message that the panicking thread gave, or
/// a fixed text where it gave none.
pub fn panic_to_string(payload: Option<String>) -> (r: String)
    ensures
        r@ == (match payload {
            Some(s) => s@,
            None => "unknown panic payload"@,
        }),
{
    match payload {
        Some(s) => s,
        None => copy("unknown panic payload"),
    }
}

/// Escapes a text for use inside a quoted attribute.
pub fn escape_attr(s: &str) -> (r: String)
    ensures
        r@ == escaped(s@),
{
    let v = chars_of(s);
    let mut out = String::new();
    let n: usize = v.len();
    let mut i: usize = 0;
    while i < n
        invariant
            i <= n,
            n == v@.len(),
            v@ == s@,
            out@ == escaped(s@.take(i as int)),
        decreases n - i,
    {
        let c: char = v[i];
        proof {
            assert(s@.take(i as int + 1).drop_last() =~= s@.take(i as int));
            assert(out@.push(c) =~= out@ + seq![c]);
        }
        if c == '&' {
            out.append("&amp;");
        } else if c == '"' {
            out.append("&quot;");
        } else if c == '<' {
            out.append("&lt;");
        } else if c == '>' {
            out.append("&gt;");
        } else {
            out.push(c);
        }
        i += 1;
    }
    assert(s@.take(n as int) =~= s@);
    out
}

} // verus!
