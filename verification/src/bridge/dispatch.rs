//! One request of the bus: session, streaming and reply.
use vstd::prelude::*;
use vstd::string::*;
use crate::agent::Agent;
use crate::bridge::harmony::{drain, visible, HarmonyStripper};
use crate::ids::{is_fresh_id, is_random, random_uuid, uuid_text};
use crate::message::{messages_view, opt_text, MessageView};
use crate::pieces::{lemma_texts_push, split_words};
use crate::search::{begins, starts_with, texts, words};
use crate::text::{cat2, cat3, copy, same};
use crate::wire::{subject3, AgentCancel, AgentDispatch, AgentReply, AgentToken, RequestId};

verus! {

/// The names of the tools that a step has called.
pub struct ToolObserver {
    pub log: Vec<String>,
}

impl ToolObserver {
    pub fn new() -> (r: Self)
        ensures
            r.log@.len() == 0,
    {
        ToolObserver { log: Vec::new() }
    }

    /// Notes a call.
    pub fn on_tool_start(&mut self, call: &crate::message::ToolCall)
        ensures
            texts(final(self).log@) == texts(old(self).log@).push(call@.name),
    {
        let name = copy(call.function.name.as_str());
        proof {
            lemma_texts_push(self.log@, name);
        }
        self.log.push(name);
    }
}

impl Default for ToolObserver {
    fn default() -> (r: Self)
        ensures
            r.log@.len() == 0,
    {
        ToolObserver::new()
    }
}

/// The conversation that a bridge is in.
pub struct SessionState {
    pub session_id: String,
    /// When the last reply was produced, in nanoseconds of a steady clock.
    pub last_message_at: Option<u64>,
}

/// Whether the next request goes on with the session.
#[derive(Debug)]
pub enum SessionDecision {
    /// The session goes on.
    Reuse(String),
    /// A new session begins.
    Rotate(String),
}

/// The time since a moment; none where the moment lies ahead.
pub open spec fn since(now: u64, then: u64) -> int {
    if now >= then {
        now - then
    } else {
        0
    }
}

/// The session is over: its last reply is too old.
pub open spec fn stale(last: Option<u64>, timeout_ns: u64, now: u64) -> bool {
    last is Some && since(now, last->0) > timeout_ns
}

fn new_session_id() -> (r: String)
    ensures
        is_fresh_id(r@),
{
    let n: u128 = random_uuid();
    assert(is_random(n));
    uuid_text(n)
}

/// The content of a [`SessionState`].
pub struct SessionView {
    pub session_id: Seq<char>,
    pub last_message_at: Option<u64>,
}

impl View for SessionState {
    type V = SessionView;

    open spec fn view(&self) -> SessionView {
        SessionView { session_id: self.session_id@, last_message_at: self.last_message_at }
    }
}

/// The content of a [`SessionDecision`].
pub enum SessionDecisionView {
    Reuse(Seq<char>),
    Rotate(Seq<char>),
}

impl View for SessionDecision {
    type V = SessionDecisionView;

    open spec fn view(&self) -> SessionDecisionView {
        match self {
            SessionDecision::Reuse(id) => SessionDecisionView::Reuse(id@),
            SessionDecision::Rotate(id) => SessionDecisionView::Rotate(id@),
        }
    }
}

/// The session after a decision, and the decision: a stale session gives way to a
/// fresh one, and any other goes on.
pub open spec fn decide_model(s: SessionView, timeout_ns: u64, now: u64, fresh: Seq<char>) -> (
    SessionView,
    SessionDecisionView,
) {
    if stale(s.last_message_at, timeout_ns, now) {
        (
            SessionView { session_id: fresh, last_message_at: None },
            SessionDecisionView::Rotate(fresh),
        )
    } else {
        (s, SessionDecisionView::Reuse(s.session_id))
    }
}

/// A session that was idle for at most the timeout, or has no reply yet, goes on
/// unchanged. A stale one is rotated once: the next decision, whenever it is taken,
/// reuses the fresh session. Where the fresh identifier is another one, so is the
/// session's.
pub proof fn a_stale_session_is_rotated_once(
    s: SessionView,
    timeout_ns: u64,
    now: u64,
    fresh: Seq<char>,
    next_timeout_ns: u64,
    later: u64,
    another: Seq<char>,
)
    ensures
        ({
            let (t, d) = decide_model(s, timeout_ns, now, fresh);
            &&& !stale(s.last_message_at, timeout_ns, now) ==> t == s && d
                == SessionDecisionView::Reuse(s.session_id)
            &&& stale(s.last_message_at, timeout_ns, now) ==> {
                &&& d == SessionDecisionView::Rotate(fresh)
                &&& t.session_id == fresh
                &&& t.last_message_at is None
                &&& fresh != s.session_id ==> t.session_id != s.session_id
                &&& decide_model(t, next_timeout_ns, later, another) == (
                    t,
                    SessionDecisionView::Reuse(fresh),
                )
            }
        }),
{
}

impl SessionState {
    pub fn new() -> (r: Self)
        ensures
            r.last_message_at is None,
            is_fresh_id(r.session_id@),
    {
        SessionState { session_id: new_session_id(), last_message_at: None }
    }

    /// Decides whether the session goes on, with the identifier that a new one
    /// would have.
    pub fn decide_with(&mut self, timeout_ns: u64, now: u64, fresh: String) -> (r: SessionDecision)
        ensures
            (final(self)@, r@) == decide_model(old(self)@, timeout_ns, now, fresh@),
            !stale(old(self).last_message_at, timeout_ns, now) ==> *final(self) == *old(self),
    {
        match self.last_message_at {
            None => SessionDecision::Reuse(copy(self.session_id.as_str())),
            Some(t) => {
                let elapsed: u64 = now.saturating_sub(t);
                if elapsed <= timeout_ns {
                    SessionDecision::Reuse(copy(self.session_id.as_str()))
                } else {
                    let id = copy(fresh.as_str());
                    self.session_id = fresh;
                    self.last_message_at = None;
                    SessionDecision::Rotate(id)
                }
            },
        }
    }

    /// Decides whether the session goes on. Times are nanoseconds of a steady
    /// clock.
    pub fn decide(&mut self, timeout_ns: u64, now: u64) -> (r: SessionDecision)
        ensures
            exists|fresh: Seq<char>| #[trigger]
                is_fresh_id(fresh) && (final(self)@, r@) == decide_model(
                    old(self)@,
                    timeout_ns,
                    now,
                    fresh,
                ),
            if stale(old(self).last_message_at, timeout_ns, now) {
                &&& r is Rotate && r->Rotate_0@ == final(self).session_id@
                &&& is_fresh_id(final(self).session_id@)
                &&& final(self).last_message_at is None
            } else {
                &&& r is Reuse && r->Reuse_0@ == old(self).session_id@
                &&& *final(self) == *old(self)
            },
    {
        let fresh = new_session_id();
        self.decide_with(timeout_ns, now, fresh)
    }

    /// Notes that a reply was produced.
    pub fn mark_turn(&mut self, now: u64)
        ensures
            final(self).last_message_at == Some(now),
            final(self).session_id == old(self).session_id,
    {
        self.last_message_at = Some(now);
    }
}

impl Default for SessionState {
    fn default() -> (r: Self)
        ensures
            r.last_message_at is None,
            is_fresh_id(r.session_id@),
    {
        SessionState::new()
    }
}

/// The outcome of one step of an agent.
#[derive(Debug)]
pub struct ReplyOutcome {
    pub ok: bool,
    pub text: String,
    pub tokens: u32,
    pub duration_ms: u32,
    pub tool_calls: Vec<String>,
    pub error: Option<String>,
}

/// What a step is given.
pub struct StepInputs<'a> {
    pub user_input: &'a str,
    /// Whether the reply is streamed.
    pub streaming: bool,
    pub session: SessionDirective,
    /// How many turns of the conversation are kept; all where it is zero.
    pub max_history_turns: u32,
}

/// What happens to the conversation before a step.
#[derive(Debug)]
pub enum SessionDirective {
    /// It goes on.
    Reuse,
    /// A new one begins under this identifier.
    Rotate(String),
}

/// Something that takes steps.
pub trait AgentRunner: Send + Sync {
    fn run_step(&self, inputs: StepInputs<'_>) -> ReplyOutcome;
}

/// A conversation of which only the first message is left.
pub open spec fn only_first(m: Seq<MessageView>) -> Seq<MessageView> {
    if m.len() > 1 {
        m.take(1)
    } else {
        m
    }
}

/// Begins a new session: only the system prompt is kept.
pub fn rotate_agent_session(agent: &mut Agent, new_id: &str)
    ensures
        final(agent)@.messages == only_first(old(agent)@.messages),
        final(agent).session@ == new_id@,
        final(agent)@.limits == old(agent)@.limits,
        final(agent)@.run == old(agent)@.run,
        final(agent).tools == old(agent).tools,
        final(agent).stream == old(agent).stream,
{
    if agent.messages.len() > 0 {
        agent.messages.truncate(1);
    }
    agent.session = copy(new_id);
    assert(agent@.messages =~= only_first(old(agent)@.messages));
}

/// How many of the messages from `i` on are the user's.
pub open spec fn user_turns(m: Seq<MessageView>, i: int) -> nat
    decreases m.len() - i,
{
    if i < 0 || i >= m.len() {
        0
    } else {
        user_turns(m, i + 1) + (if m[i].role == "user"@ {
            1nat
        } else {
            0nat
        })
    }
}

/// Index of the first message from `i` on that is the user's and has no more
/// than `n` of the user's messages from it on.
pub open spec fn cut_point(m: Seq<MessageView>, i: int, n: nat) -> int
    decreases m.len() - i,
{
    if i < 0 || i >= m.len() {
        m.len() as int
    } else if m[i].role == "user"@ && user_turns(m, i) <= n {
        i
    } else {
        cut_point(m, i + 1, n)
    }
}

/// A conversation trimmed to its last turns: the first message stays, and what
/// follows it begins with a user message.
pub open spec fn last_turns(m: Seq<MessageView>, max: nat) -> Seq<MessageView> {
    if max == 0 || m.len() <= 1 || user_turns(m, 1) <= max {
        m
    } else {
        seq![m[0]] + m.skip(cut_point(m, 1, max))
    }
}

proof fn lemma_cut_point(m: Seq<MessageView>, i: int, n: nat)
    requires
        0 <= i <= m.len(),
        n > 0,
        user_turns(m, i) >= n,
    ensures
        i <= cut_point(m, i, n) < m.len(),
        m[cut_point(m, i, n)].role == "user"@,
        user_turns(m, cut_point(m, i, n)) == n,
    decreases m.len() - i,
{
    if i < m.len() {
        if !(m[i].role == "user"@ && user_turns(m, i) <= n) {
            lemma_cut_point(m, i + 1, n);
        }
    }
}

proof fn lemma_turns_shift(m: Seq<MessageView>, w: Seq<MessageView>, i: int, j: int)
    requires
        0 <= i <= w.len(),
        0 <= j <= m.len(),
        w.skip(i) == m.skip(j),
    ensures
        user_turns(w, i) == user_turns(m, j),
    decreases m.len() - j,
{
    assert(w.skip(i).len() == w.len() - i);
    assert(m.skip(j).len() == m.len() - j);
    if j < m.len() {
        assert(w.skip(i)[0] == w[i]);
        assert(m.skip(j)[0] == m[j]);
        assert(w.skip(i + 1) =~= w.skip(i).skip(1));
        assert(m.skip(j + 1) =~= m.skip(j).skip(1));
        lemma_turns_shift(m, w, i + 1, j + 1);
    }
}

/// Trimming keeps the first message, keeps no more turns than it may, and never
/// separates a tool's result from the turn that asked for it: what follows the
/// first message begins with a user message.
pub proof fn trimming_keeps_whole_turns(m: Seq<MessageView>, max: nat)
    requires
        max > 0,
        m.len() > 0,
    ensures
        last_turns(m, max).len() > 0,
        last_turns(m, max)[0] == m[0],
        user_turns(last_turns(m, max), 1) <= max,
        last_turns(m, max) != m ==> last_turns(m, max).len() > 1 && last_turns(m, max)[1].role
            == "user"@,
{
    if !(m.len() <= 1 || user_turns(m, 1) <= max) {
        lemma_cut_point(m, 1, max);
        let k = cut_point(m, 1, max);
        let w = last_turns(m, max);
        assert(w.skip(1) =~= m.skip(k));
        lemma_turns_shift(m, w, 1, k);
        assert(w[1] == m[k]);
    }
}

/// How many user messages follow the first message.
pub open spec fn turns_after_first(m: Seq<MessageView>) -> nat {
    m.skip(1).filter(|x: MessageView| x.role == "user"@).len()
}

proof fn lemma_turns_are_user_messages(m: Seq<MessageView>, i: int)
    requires
        0 <= i <= m.len(),
    ensures
        user_turns(m, i) == m.skip(i).filter(|x: MessageView| x.role == "user"@).len(),
    decreases m.len() - i,
{
    let by_user = |x: MessageView| x.role == "user"@;
    if i < m.len() {
        lemma_turns_are_user_messages(m, i + 1);
        assert(m.skip(i) =~= seq![m[i]] + m.skip(i + 1));
        Seq::filter_distributes_over_add(seq![m[i]], m.skip(i + 1), by_user);
        Seq::<MessageView>::empty().lemma_filter_push(m[i], by_user);
        assert(Seq::<MessageView>::empty().push(m[i]) =~= seq![m[i]]);
        assert(Seq::<MessageView>::empty().filter(by_user).len() == 0);
    } else {
        assert(m.skip(i).filter(by_user).len() == 0);
    }
}

/// Trimming drops no more than it has to: a conversation with few enough turns stays as
/// it is, and so does every one where there is no limit; of a longer one exactly as
/// many turns stay as may, and they are the newest, up to the last message.
pub proof fn trimming_keeps_the_newest_turns(m: Seq<MessageView>, max: nat)
    requires
        m.len() > 0,
    ensures
        max == 0 || turns_after_first(m) <= max ==> last_turns(m, max) == m,
        max > 0 && turns_after_first(m) > max ==> {
            let r = last_turns(m, max);
            &&& turns_after_first(r) == max
            &&& r[0] == m[0]
            &&& 1 < r.len() < m.len()
            &&& r.skip(1) == m.skip(m.len() - r.len() + 1)
            &&& r[1].role == "user"@
        },
{
    lemma_turns_are_user_messages(m, 1);
    if max > 0 && turns_after_first(m) > max {
        lemma_cut_point(m, 1, max);
        let k = cut_point(m, 1, max);
        let r = last_turns(m, max);
        assert(r.skip(1) =~= m.skip(k));
        lemma_turns_shift(m, r, 1, k);
        lemma_turns_are_user_messages(r, 1);
        assert(r[1] == m[k]);
    }
}

/// A rotated conversation keeps its first message alone.
pub proof fn rotation_starts_over(m: Seq<MessageView>)
    ensures
        only_first(m).len() <= 1,
        m.len() > 0 ==> only_first(m) == seq![m[0]],
{
    if m.len() > 0 {
        assert(only_first(m) =~= seq![m[0]]);
    }
}

/// A session goes on while its last reply is no older than the timeout, and for as long
/// as there was no reply; after that a new one begins.
pub proof fn a_session_lasts_as_long_as_its_timeout(
    s: SessionView,
    timeout_ns: u64,
    now: u64,
    fresh: Seq<char>,
)
    ensures
        ({
            let (t, d) = decide_model(s, timeout_ns, now, fresh);
            let goes_on = match s.last_message_at {
                Some(then) => now <= then + timeout_ns,
                None => true,
            };
            if goes_on {
                d == SessionDecisionView::Reuse(s.session_id) && t == s
            } else {
                &&& d == SessionDecisionView::Rotate(fresh)
                &&& t.session_id == fresh
                &&& t.last_message_at is None
            }
        }),
{
}

/// The pieces of an echo, one after the other, are its words with one space between
/// each two.
pub proof fn echoed_pieces_are_the_words(ws: Seq<Seq<char>>)
    ensures
        crate::bridge::harmony::flat(echo_pieces(ws)) == crate::search::join(ws, seq![' ']),
        ws.len() > 0 ==> echo_pieces(ws).len() == 2 * ws.len() - 1,
    decreases ws.len(),
{
    reveal_strlit(" ");
    reveal_with_fuel(crate::bridge::harmony::flat, 3);
    let e = echo_pieces(ws);
    if ws.len() == 1 {
        assert(e.drop_last() =~= Seq::<Seq<char>>::empty());
        assert(Seq::<char>::empty() + ws[0] =~= ws[0]);
    } else if ws.len() > 1 {
        let p = echo_pieces(ws.drop_last());
        echoed_pieces_are_the_words(ws.drop_last());
        assert(e.drop_last() =~= p.push(" "@));
        assert(p.push(" "@).drop_last() =~= p);
        assert(" "@ =~= seq![' ']);
    }
}

/// Drops the oldest turns past a number of turns.
pub fn trim_history_to_turns(agent: &mut Agent, max_turns: u32)
    ensures
        final(agent)@.messages == last_turns(old(agent)@.messages, max_turns as nat),
        final(agent)@.limits == old(agent)@.limits,
        final(agent)@.run == old(agent)@.run,
        final(agent).tools == old(agent).tools,
        final(agent).session == old(agent).session,
        final(agent).stream == old(agent).stream,
{
    if max_turns == 0 || agent.messages.len() <= 1 {
        return ;
    }
    let n: usize = agent.messages.len();
    let ghost m = agent@.messages;
    let mut i: usize = n;
    let mut count: usize = 0;
    let mut cut: usize = n;
    let max: usize = max_turns as usize;
    while i > 1
        invariant
            1 <= i <= n,
            n == agent.messages@.len(),
            m == messages_view(agent.messages@),
            agent@ == old(agent)@,
            *agent == *old(agent),
            max == max_turns,
            max > 0,
            count <= n - i,
            count == user_turns(m, i as int),
            i <= cut <= n,
            cut == cut_point(m, i as int, max as nat),
        decreases i,
    {
        i -= 1;
        assert(m[i as int].role == agent.messages@[i as int].role@);
        if same(agent.messages[i].role.as_str(), "user") {
            count += 1;
            if count <= max {
                cut = i;
            }
        }
    }
    if count <= max {
        return ;
    }
    proof {
        lemma_cut_point(m, 1, max as nat);
    }
    agent.messages = agent.windowed_truncated(cut);
}

/// Prepares an agent for a step.
pub fn prepare_step(agent: &mut Agent, session: &SessionDirective, max_history_turns: u32)
    ensures
        final(agent)@.messages == last_turns(
            match session {
                SessionDirective::Reuse => old(agent)@.messages,
                SessionDirective::Rotate(_) => only_first(old(agent)@.messages),
            },
            max_history_turns as nat,
        ),
        final(agent).session@ == (match session {
            SessionDirective::Reuse => old(agent).session@,
            SessionDirective::Rotate(id) => id@,
        }),
        final(agent)@.limits == old(agent)@.limits,
        final(agent)@.run == old(agent)@.run,
        final(agent).tools == old(agent).tools,
        final(agent).stream == old(agent).stream,
{
    if let SessionDirective::Rotate(id) = session {
        rotate_agent_session(agent, id.as_str());
    }
    trim_history_to_turns(agent, max_history_turns);
}

/// The number of words of a text, as a count of 32 bits.
pub open spec fn word_count(s: Seq<char>) -> u32 {
    words(s).len() as u32
}

/// A rough number of tokens: the words of the text.
pub fn approximate_tokens(text: &str) -> (r: u32)
    ensures
        r == word_count(text@),
{
    let ws = split_words(text);
    assert(texts(ws@).len() == ws@.len());
    #[verifier::truncate]
    let n: u32 = ws.len() as u32;
    n
}

/// The outcome of a step.
pub fn outcome_of(result: Result<String, String>, duration_ms: u32, tool_calls: Vec<String>) -> (r:
    ReplyOutcome)
    ensures
        r.duration_ms == duration_ms,
        r.tool_calls == tool_calls,
        match result {
            Ok(text) => {
                &&& r.ok
                &&& r.text@ == text@
                &&& r.tokens == word_count(text@)
                &&& r.error is None
            },
            Err(e) => {
                &&& !r.ok
                &&& r.text@.len() == 0
                &&& r.tokens == 0
                &&& opt_text(r.error) == Some("agent.step failed: "@ + e@)
            },
        },
{
    match result {
        Ok(text) => {
            let tokens: u32 = approximate_tokens(text.as_str());
            ReplyOutcome { ok: true, text, tokens, duration_ms, tool_calls, error: None }
        },
        Err(e) => {
            let error = Some(cat2("agent.step failed: ", e.as_str()));
            ReplyOutcome {
                ok: false,
                text: String::new(),
                tokens: 0,
                duration_ms,
                tool_calls,
                error,
            }
        },
    }
}

/// A runner that echoes its input.
pub struct EchoRunner;

/// The pieces in which an echo is streamed: its words with a space between them.
pub open spec fn echo_pieces(ws: Seq<Seq<char>>) -> Seq<Seq<char>>
    decreases ws.len(),
{
    if ws.len() == 0 {
        Seq::empty()
    } else if ws.len() == 1 {
        seq![ws[0]]
    } else {
        echo_pieces(ws.drop_last()).push(" "@).push(ws.last())
    }
}

impl EchoRunner {
    /// The pieces in which an echo is streamed.
    pub fn pieces(&self, text: &str) -> (r: Vec<String>)
        ensures
            texts(r@) == echo_pieces(words(text@)),
    {
        let ws = split_words(text);
        let mut out: Vec<String> = Vec::new();
        let n: usize = ws.len();
        let mut i: usize = 0;
        let ghost all = words(text@);
        assert(texts(out@) =~= Seq::empty());
        assert(all.take(0) =~= Seq::empty());
        while i < n
            invariant
                i <= n,
                n == ws@.len(),
                all == texts(ws@),
                texts(out@) == echo_pieces(all.take(i as int)),
            decreases n - i,
        {
            let ghost before = texts(out@);
            proof {
                assert(all.take(i as int + 1).drop_last() =~= all.take(i as int));
                assert(all[i as int] == ws@[i as int]@);
            }
            if i > 0 {
                let gap = copy(" ");
                proof {
                    lemma_texts_push(out@, gap);
                }
                out.push(gap);
            }
            let w = copy(ws[i].as_str());
            proof {
                lemma_texts_push(out@, w);
            }
            out.push(w);
            proof {
                if i == 0 {
                    assert(texts(out@) =~= seq![w@]);
                }
            }
            i += 1;
        }
        assert(all.take(n as int) =~= all);
        out
    }
}

impl AgentRunner for EchoRunner {
    fn run_step(&self, inputs: StepInputs<'_>) -> (r: ReplyOutcome)
        ensures
            r.ok,
            r.text@ == "echo: "@ + inputs.user_input@,
            r.tokens == word_count("echo: "@ + inputs.user_input@),
            r.duration_ms == 0,
            r.tool_calls@.len() == 0,
            r.error is None,
    {
        let text = cat2("echo: ", inputs.user_input);
        let tokens: u32 = approximate_tokens(text.as_str());
        ReplyOutcome {
            ok: true,
            text,
            tokens,
            duration_ms: 0,
            tool_calls: Vec::new(),
            error: None,
        }
    }
}

/// A reply that reports an error.
pub open spec fn is_error_reply(r: AgentReply, id: RequestId, error: Seq<char>) -> bool {
    &&& r.request_id == id
    &&& !r.ok
    &&& r.text@.len() == 0
    &&& r.tokens == 0
    &&& r.duration_ms == 0
    &&& r.tool_calls@.len() == 0
    &&& opt_text(r.error) == Some(error)
}

fn error_reply(request_id: RequestId, error: String) -> (r: AgentReply)
    ensures
        is_error_reply(r, request_id, error@),
{
    AgentReply {
        request_id,
        ok: false,
        text: String::new(),
        tokens: 0,
        duration_ms: 0,
        tool_calls: Vec::new(),
        error: Some(error),
    }
}

/// What a request turns into.
pub enum DispatchStart {
    /// The request is refused: a reply goes to a subject of its own.
    Refused { subject: String, reply: AgentReply },
    /// The request is worked on.
    Run { run: DispatchRun, session: SessionDirective },
}

/// A request that is worked on.
pub struct DispatchRun {
    pub request_id: RequestId,
    /// Where the reply goes.
    pub reply_to: String,
    /// Where pieces of the reply go while it is streamed.
    pub token_subject: String,
    pub streaming: bool,
    /// Position of the next piece.
    pub next_idx: u32,
    pub stripper: HarmonyStripper,
}

/// The subject on which pieces of a reply are published.
pub fn token_subject(agent_name: &str, request_id: &RequestId) -> (r: String)
    ensures
        r@ == subject3("agent.token"@, agent_name@, request_id.text()),
{
    let id = request_id.to_text();
    crate::text::cat5("agent.token", ".", agent_name, ".", id.as_str())
}

/// Takes up a request. One whose reply is to go elsewhere than to a response
/// subject is refused.
pub fn start_dispatch(
    agent_name: &str,
    streaming: bool,
    session_timeout_ns: u64,
    session: &mut SessionState,
    dispatch: &AgentDispatch,
    now: u64,
) -> (r: DispatchStart)
    ensures
        match r {
            DispatchStart::Refused { subject, reply } => {
                &&& !starts_with(dispatch.reply_to@, "agent.response."@)
                &&& subject@ == "agent.response.error."@ + dispatch.request_id.text()
                &&& is_error_reply(
                    reply,
                    dispatch.request_id,
                    "invalid reply_to subject '"@ + dispatch.reply_to@
                        + "': must start with 'agent.response.'"@,
                )
                &&& *final(session) == *old(session)
            },
            DispatchStart::Run { run, session: directive } => {
                &&& starts_with(dispatch.reply_to@, "agent.response."@)
                &&& run.request_id == dispatch.request_id
                &&& run.reply_to@ == dispatch.reply_to@
                &&& run.token_subject@ == subject3(
                    "agent.token"@,
                    agent_name@,
                    dispatch.request_id.text(),
                )
                &&& run.streaming == streaming
                &&& run.next_idx == 0
                &&& run.stripper.wf()
                &&& run.stripper.held() == Seq::<char>::empty()
                &&& !run.stripper.hidden()
                &&& if stale(old(session).last_message_at, session_timeout_ns, now) {
                    &&& directive is Rotate
                    &&& directive->Rotate_0@ == final(session).session_id@
                    &&& is_fresh_id(final(session).session_id@)
                    &&& final(session).last_message_at is None
                } else {
                    directive is Reuse && *final(session) == *old(session)
                }
            },
        },
{
    if !begins(dispatch.reply_to.as_str(), "agent.response.") {
        let id = dispatch.request_id.to_text();
        let error = cat3(
            "invalid reply_to subject '",
            dispatch.reply_to.as_str(),
            "': must start with 'agent.response.'",
        );
        return DispatchStart::Refused {
            subject: cat2("agent.response.error.", id.as_str()),
            reply: error_reply(dispatch.request_id, error),
        };
    }
    let directive = match session.decide(session_timeout_ns, now) {
        SessionDecision::Reuse(_) => SessionDirective::Reuse,
        SessionDecision::Rotate(id) => SessionDirective::Rotate(id),
    };
    let run = DispatchRun {
        request_id: dispatch.request_id,
        reply_to: copy(dispatch.reply_to.as_str()),
        token_subject: token_subject(agent_name, &dispatch.request_id),
        streaming,
        next_idx: 0,
        stripper: HarmonyStripper::new(),
    };
    DispatchStart::Run { run, session: directive }
}

/// A piece of a reply.
pub open spec fn is_token(t: AgentToken, id: RequestId, idx: u32, text: Seq<char>) -> bool {
    t.request_id == id && t.idx == idx && t.text@ == text && !t.is_final
}

impl DispatchRun {
    /// Takes what the model said and gives the part of it that may be shown.
    pub fn clean_delta(&mut self, delta: &str) -> (r: Option<String>)
        requires
            old(self).stripper.wf(),
        ensures
            final(self).stripper.wf(),
            forall|t: Seq<char>|
                #![trigger visible(final(self).stripper.held() + t, final(self).stripper.hidden())]
                visible(old(self).stripper.held() + delta@ + t, old(self).stripper.hidden())
                    == crate::net::convert::or_empty(opt_text(r)) + visible(
                    final(self).stripper.held() + t,
                    final(self).stripper.hidden(),
                ),
            delta@.len() == 0 ==> r is None && final(self).stripper == old(self).stripper,
            delta@.len() > 0 ==> (
                crate::net::convert::or_empty(opt_text(r)),
                final(self).stripper.held(),
                final(self).stripper.hidden(),
            ) == drain(old(self).stripper.held() + delta@, old(self).stripper.hidden()),
            r is Some ==> r->0@.len() > 0,
            final(self).request_id == old(self).request_id,
            final(self).reply_to == old(self).reply_to,
            final(self).token_subject == old(self).token_subject,
            final(self).streaming == old(self).streaming,
            final(self).next_idx == old(self).next_idx,
    {
        let cleaned = self.stripper.process(delta);
        if cleaned.as_str().is_empty() {
            assert(cleaned@ =~= Seq::<char>::empty());
            None
        } else {
            Some(cleaned)
        }
    }

    /// The next piece of the reply, as it is published.
    pub fn next_frame(&mut self, text: String) -> (r: AgentToken)
        ensures
            is_token(r, old(self).request_id, old(self).next_idx, text@),
            final(self).next_idx == (if old(self).next_idx < u32::MAX {
                (old(self).next_idx + 1) as u32
            } else {
                u32::MAX
            }),
            final(self).request_id == old(self).request_id,
            final(self).reply_to == old(self).reply_to,
            final(self).token_subject == old(self).token_subject,
            final(self).streaming == old(self).streaming,
            final(self).stripper == old(self).stripper,
    {
        let frame = AgentToken {
            request_id: self.request_id,
            idx: self.next_idx,
            text,
            is_final: false,
        };
        self.next_idx = self.next_idx.saturating_add(1);
        frame
    }

    /// What was held back when the model had finished, if it may be shown.
    pub fn flush_tail(&mut self) -> (r: Option<String>)
        requires
            old(self).stripper.wf(),
        ensures
            final(self).stripper.wf(),
            crate::net::convert::or_empty(opt_text(r)) == visible(
                old(self).stripper.held(),
                old(self).stripper.hidden(),
            ),
            final(self).stripper.held() == Seq::<char>::empty(),
            final(self).stripper.hidden() == old(self).stripper.hidden(),
            r is Some ==> r->0@.len() > 0,
            final(self).request_id == old(self).request_id,
            final(self).reply_to == old(self).reply_to,
            final(self).token_subject == old(self).token_subject,
            final(self).streaming == old(self).streaming,
            final(self).next_idx == old(self).next_idx,
    {
        let tail = self.stripper.flush();
        if tail.as_str().is_empty() {
            assert(tail@ =~= Seq::<char>::empty());
            None
        } else {
            Some(tail)
        }
    }

    /// The piece that ends a streamed reply; none where it is not streamed.
    pub fn final_frame(&self) -> (r: Option<AgentToken>)
        ensures
            match r {
                Some(t) => {
                    &&& self.streaming
                    &&& t.request_id == self.request_id
                    &&& t.idx == self.next_idx
                    &&& t.text@.len() == 0
                    &&& t.is_final
                },
                None => !self.streaming,
            },
    {
        if self.streaming {
            Some(
                AgentToken {
                    request_id: self.request_id,
                    idx: self.next_idx,
                    text: String::new(),
                    is_final: true,
                },
            )
        } else {
            None
        }
    }

    /// The reply: what the step gave, cleaned of channel markers, or the error
    /// of the worker that was to take it. A step that succeeded counts as a turn
    /// of the session.
    pub fn reply(
        &self,
        outcome: Result<ReplyOutcome, String>,
        session: &mut SessionState,
        now: u64,
    ) -> (r: AgentReply)
        ensures
            match outcome {
                Ok(o) => {
                    &&& r.request_id == self.request_id
                    &&& r.ok == o.ok
                    &&& r.text@ == visible(o.text@, false)
                    &&& r.tokens == o.tokens
                    &&& r.duration_ms == o.duration_ms
                    &&& r.tool_calls == o.tool_calls
                    &&& r.error == o.error
                    &&& final(session).session_id == old(session).session_id
                    &&& final(session).last_message_at == (if o.ok {
                        Some(now)
                    } else {
                        old(session).last_message_at
                    })
                },
                Err(e) => is_error_reply(r, self.request_id, "worker panicked: "@ + e@)
                    && *final(session) == *old(session),
            },
    {
        match outcome {
            Ok(o) => {
                if o.ok {
                    session.mark_turn(now);
                }
                AgentReply {
                    request_id: self.request_id,
                    ok: o.ok,
                    text: HarmonyStripper::strip_full(o.text.as_str()),
                    tokens: o.tokens,
                    duration_ms: o.duration_ms,
                    tool_calls: o.tool_calls,
                    error: o.error,
                }
            },
            Err(e) => error_reply(self.request_id, cat2("worker panicked: ", e.as_str())),
        }
    }
}

/// The reply to a request that was cancelled.
pub fn cancel_reply(request_id: RequestId) -> (r: AgentReply)
    ensures
        is_error_reply(r, request_id, "cancelled"@),
{
    error_reply(request_id, copy("cancelled"))
}

/// The request that a cancellation applies to, if it applies to the one that is
/// worked on: all requests, that very one, or whichever it is.
pub fn cancel_target<'a>(
    in_flight: Option<&'a (RequestId, String)>,
    cancel: &AgentCancel,
) -> (r: Option<&'a (RequestId, String)>)
    ensures
        match in_flight {
            Some(f) => r == (if cancel.all || cancel.request_id is None || cancel.request_id->0
                == f.0 {
                Some(f)
            } else {
                None
            }),
            None => r is None,
        },
{
    match in_flight {
        Some(f) => {
            let hit: bool = cancel.all || match cancel.request_id {
                Some(id) => id == f.0,
                None => true,
            };
            if hit {
                Some(f)
            } else {
                None
            }
        },
        None => None,
    }
}

/// Whether the request that was finished is the one noted as being worked on.
pub fn clears_in_flight(in_flight: Option<&(RequestId, String)>, finished: RequestId) -> (r: bool)
    ensures
        r == (in_flight is Some && (in_flight->0).0 == finished),
{
    match in_flight {
        Some(f) => f.0 == finished,
        None => false,
    }
}

/// A reply that reports an error says so, names its request, and holds nothing else.
pub proof fn an_error_reply_holds_only_the_error(r: AgentReply, id: RequestId, error: Seq<char>)
    ensures
        is_error_reply(r, id, error) <==> {
            &&& r.request_id == id
            &&& !r.ok
            &&& r.error is Some
            &&& r.error->0@ == error
            &&& r.text@ == Seq::<char>::empty()
            &&& r.tokens == 0
            &&& r.duration_ms == 0
            &&& r.tool_calls@.len() == 0
        },
{
    assert(r.text@.len() == 0 <==> r.text@ =~= Seq::<char>::empty());
}

/// The tokens of a reply are guessed by its words.
pub proof fn tokens_are_guessed_by_words(s: Seq<char>)
    requires
        words(s).len() <= u32::MAX,
    ensures
        word_count(s) == words(s).len(),
{
}

} // verus!
