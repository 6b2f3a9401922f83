//! One step of an agent as a state machine.
//!
//! A step takes a user input and alternates between inference turns and tool
//! dispatch until the model answers without asking for a tool. The machine
//! decides; whoever drives it talks to the backend, asks the observer, runs the
//! tools and tells the time. Every call of [`Agent::step`] takes what happened
//! and gives what to do next:
//!
//! - [`StepAction::Chat`]: send [`Agent::windowed`] to the backend;
//! - [`StepAction::Gate`]: ask the observer about each pending call;
//! - [`StepAction::Dispatch`]: run the calls that were allowed, in parallel;
//! - [`StepAction::Done`]: the step is over.
use vstd::prelude::*;
use vstd::string::*;
use crate::agent::{framed, Agent, AgentView, Limits, ToolQuota};
use crate::decimal::{dec, decimal};
use crate::message::{
    calls_of, calls_view, copy_calls, lemma_messages_push, plain_view, CallView, Message, MessageView,
    ToolCall, UsageStats,
};
use crate::observer::Disposition;
use crate::table::Table;
use crate::text::{cat2, cat3, cat4, cat5, clip, clip_text, copy, same};

verus! {

/// How often a fingerprint may occur in a step before the step is stopped.
pub const LOOP_LIMIT: usize = 3;

/// What a tool has used up in the current step.
#[derive(Clone, Copy, Debug)]
pub struct QuotaUsage {
    pub calls: u32,
    pub duration_us: u64,
}

/// What the machine waits for.
#[derive(Clone, Copy, Debug, PartialEq, Eq, Structural)]
pub enum Phase {
    /// No step is running.
    Idle,
    /// The backend's reply.
    Reply,
    /// The observer's verdict on each pending call.
    Verdicts,
    /// The outcome of each allowed call.
    Outcomes,
}

/// Whether a pending call runs.
#[derive(Debug)]
pub enum CallDecision {
    /// The call runs.
    Allow,
    /// The call does not run; the text is its result.
    Refused(String),
    /// The call was repeated too often; it does not run and ends the step.
    Looped(String),
}

/// How a dispatched call ended.
#[derive(Debug)]
pub enum Ending {
    /// The tool's answer.
    Output(String),
    /// The tool's error.
    Failed(String),
    /// The message of the panic that stopped the tool.
    Panicked(String),
}

/// The outcome of a dispatched call.
#[derive(Debug)]
pub struct ToolOutcome {
    pub ending: Ending,
    pub duration_us: u64,
}

/// What happened since the last action.
pub enum StepEvent {
    /// A user asks for something.
    Begin(String),
    /// The backend answered, or failed with a text.
    Reply(Result<Message, String>),
    /// The observer's verdict on each pending call, in order.
    Verdicts(Vec<Disposition>),
    /// The outcome of each allowed call, in order.
    Outcomes(Vec<ToolOutcome>),
}

/// What to do next.
#[derive(Debug)]
pub enum StepAction {
    /// Run one inference turn.
    Chat,
    /// Ask the observer about each pending call.
    Gate,
    /// Run the allowed calls.
    Dispatch,
    /// The step ended with an answer or an error.
    Done(Result<String, String>),
}

/// What the observer is told.
#[derive(Debug)]
pub enum Notice {
    /// The tokens of the whole step.
    Usage(UsageStats),
    /// The step ended with an answer.
    Ended(String),
    /// The step ended with an error.
    Failed(String),
}

/// The content of a [`Notice`].
pub enum NoticeView {
    Usage(UsageStats),
    Ended(Seq<char>),
    Failed(Seq<char>),
}

impl View for Notice {
    type V = NoticeView;

    open spec fn view(&self) -> NoticeView {
        match self {
            Notice::Usage(u) => NoticeView::Usage(*u),
            Notice::Ended(s) => NoticeView::Ended(s@),
            Notice::Failed(s) => NoticeView::Failed(s@),
        }
    }
}

pub open spec fn notices_view(v: Seq<Notice>) -> Seq<NoticeView> {
    v.map_values(|n: Notice| n@)
}

/// What the observer is told once a step has come to an action: at its end the
/// tokens of the step, and how it ended.
pub open spec fn notices_of(run: RunView, action: ActionView) -> Seq<NoticeView> {
    match action {
        ActionView::Done(Ok(text)) => seq![NoticeView::Usage(run.usage), NoticeView::Ended(text)],
        ActionView::Done(Err(e)) => seq![NoticeView::Usage(run.usage), NoticeView::Failed(e)],
        _ => Seq::empty(),
    }
}

/// One tool execution of the last dispatch, for the log.
#[derive(Debug)]
pub struct ToolRecord {
    pub name: String,
    pub args: String,
    pub result: String,
    pub duration_us: u64,
}

/// Progress of a step.
pub struct StepRun {
    pub phase: Phase,
    /// Inference turns that were finished.
    pub turn: usize,
    /// Tokens of all turns so far.
    pub usage: UsageStats,
    /// What each tool with a quota has used up.
    pub spent: Table<QuotaUsage>,
    /// Name and arguments of every call that was decided on.
    pub seen: Vec<(String, String)>,
    /// The calls of the current turn.
    pub calls: Vec<ToolCall>,
    /// The decisions on them.
    pub decisions: Vec<CallDecision>,
    /// What the tools of the last dispatch returned.
    pub records: Vec<ToolRecord>,
}

/// The content of a [`CallDecision`].
pub enum DecisionView {
    Allow,
    Refused(Seq<char>),
    Looped(Seq<char>),
}

/// The content of a [`ToolRecord`].
pub struct RecordView {
    pub name: Seq<char>,
    pub args: Seq<char>,
    pub result: Seq<char>,
    pub duration_us: u64,
}

/// What the observer said of a call: nothing, or why it is refused.
pub type VerdictView = Option<Seq<char>>;

/// The content of a [`StepRun`].
pub struct RunView {
    pub phase: Phase,
    pub turn: nat,
    pub usage: UsageStats,
    pub ledger: Ledger,
    pub calls: Seq<CallView>,
    pub decisions: Seq<DecisionView>,
    pub records: Seq<RecordView>,
}

/// The accounts of a step.
pub struct Ledger {
    pub spent: Map<Seq<char>, QuotaUsage>,
    pub seen: Seq<(Seq<char>, Seq<char>)>,
}

/// The content of a [`StepEvent`].
pub enum EventView {
    Begin(Seq<char>),
    Reply(Result<MessageView, Seq<char>>),
    Verdicts(Seq<VerdictView>),
    Outcomes(Seq<(Seq<char>, u64)>),
}

/// The content of a [`StepAction`].
pub enum ActionView {
    Chat,
    Gate,
    Dispatch,
    Done(Result<Seq<char>, Seq<char>>),
}

impl View for CallDecision {
    type V = DecisionView;

    open spec fn view(&self) -> DecisionView {
        match self {
            CallDecision::Allow => DecisionView::Allow,
            CallDecision::Refused(s) => DecisionView::Refused(s@),
            CallDecision::Looped(s) => DecisionView::Looped(s@),
        }
    }
}

impl View for ToolRecord {
    type V = RecordView;

    open spec fn view(&self) -> RecordView {
        RecordView {
            name: self.name@,
            args: self.args@,
            result: self.result@,
            duration_us: self.duration_us,
        }
    }
}

pub open spec fn decisions_view(v: Seq<CallDecision>) -> Seq<DecisionView> {
    v.map_values(|d: CallDecision| d@)
}

pub open spec fn records_view(v: Seq<ToolRecord>) -> Seq<RecordView> {
    v.map_values(|d: ToolRecord| d@)
}

pub open spec fn seen_view(v: Seq<(String, String)>) -> Seq<(Seq<char>, Seq<char>)> {
    v.map_values(|d: (String, String)| (d.0@, d.1@))
}

pub open spec fn verdict_view(d: Disposition) -> VerdictView {
    match d {
        Disposition::Allow => None,
        Disposition::Refused(s) => Some(s@),
    }
}

pub open spec fn verdicts_view(v: Seq<Disposition>) -> Seq<VerdictView> {
    v.map_values(|d: Disposition| verdict_view(d))
}

/// The text that a dispatched call leaves.
pub open spec fn ending_text(e: Ending) -> Seq<char> {
    match e {
        Ending::Output(s) => s@,
        Ending::Failed(e) => "error: "@ + e@,
        Ending::Panicked(m) => "error: tool thread panicked: "@ + m@,
    }
}

/// The time that counts for a dispatched call: none where it panicked.
pub open spec fn outcome_view(o: ToolOutcome) -> (Seq<char>, u64) {
    (
        ending_text(o.ending),
        if o.ending is Panicked {
            0
        } else {
            o.duration_us
        },
    )
}

pub open spec fn outcomes_view(v: Seq<ToolOutcome>) -> Seq<(Seq<char>, u64)> {
    v.map_values(|o: ToolOutcome| outcome_view(o))
}

impl View for StepRun {
    type V = RunView;

    open spec fn view(&self) -> RunView {
        RunView {
            phase: self.phase,
            turn: self.turn as nat,
            usage: self.usage,
            ledger: Ledger { spent: self.spent@, seen: seen_view(self.seen@) },
            calls: calls_view(self.calls@),
            decisions: decisions_view(self.decisions@),
            records: records_view(self.records@),
        }
    }
}

impl View for StepEvent {
    type V = EventView;

    open spec fn view(&self) -> EventView {
        match self {
            StepEvent::Begin(s) => EventView::Begin(s@),
            StepEvent::Reply(r) => EventView::Reply(
                match r {
                    Ok(m) => Ok(m@),
                    Err(e) => Err(e@),
                },
            ),
            StepEvent::Verdicts(v) => EventView::Verdicts(verdicts_view(v@)),
            StepEvent::Outcomes(v) => EventView::Outcomes(outcomes_view(v@)),
        }
    }
}

impl View for StepAction {
    type V = ActionView;

    open spec fn view(&self) -> ActionView {
        match self {
            StepAction::Chat => ActionView::Chat,
            StepAction::Gate => ActionView::Gate,
            StepAction::Dispatch => ActionView::Dispatch,
            StepAction::Done(r) => ActionView::Done(crate::tool::answer_view(*r)),
        }
    }
}

impl RunView {
    /// Before the first turn of a step.
    pub open spec fn fresh() -> RunView {
        RunView {
            phase: Phase::Idle,
            turn: 0,
            usage: UsageStats { prompt_tokens: 0, completion_tokens: 0 },
            ledger: Ledger { spent: Map::empty(), seen: Seq::empty() },
            calls: Seq::empty(),
            decisions: Seq::empty(),
            records: Seq::empty(),
        }
    }
}

/// How often a fingerprint occurs.
pub open spec fn times(seen: Seq<(Seq<char>, Seq<char>)>, f: (Seq<char>, Seq<char>)) -> nat
    decreases seen.len(),
{
    if seen.len() == 0 {
        0
    } else {
        times(seen.drop_last(), f) + (if seen.last() == f {
            1nat
        } else {
            0nat
        })
    }
}

/// What a tool has used up.
pub open spec fn spent_of(spent: Map<Seq<char>, QuotaUsage>, name: Seq<char>) -> QuotaUsage {
    if spent.contains_key(name) {
        spent[name]
    } else {
        QuotaUsage { calls: 0, duration_us: 0 }
    }
}

pub open spec fn loop_text(name: Seq<char>) -> Seq<char> {
    "loop detected: "@ + name + " repeated 3 times with identical arguments this step"@
}

/// Why a quota refuses a call, if it does.
pub open spec fn quota_refusal(q: ToolQuota, u: QuotaUsage, name: Seq<char>) -> Option<Seq<char>> {
    if q.max_calls is Some && u.calls >= q.max_calls->0 {
        Some(
            "quota exceeded: "@ + name + " reached max "@ + dec(q.max_calls->0 as nat)
                + " calls this step"@,
        )
    } else if q.max_duration_us is Some && u.duration_us >= q.max_duration_us->0 {
        Some(
            "quota exceeded: "@ + name + " reached max "@ + dec(q.max_duration_us->0 as nat)
                + "µs wall time this step"@,
        )
    } else {
        None
    }
}

/// The account after one more call.
pub open spec fn one_more_call(u: QuotaUsage) -> QuotaUsage {
    QuotaUsage {
        calls: if u.calls < u32::MAX {
            (u.calls + 1) as u32
        } else {
            u.calls
        },
        duration_us: u.duration_us,
    }
}

/// The decision on one call, with the accounts after it: a call that repeats
/// the same arguments too often is stopped, then the observer may refuse, then
/// the tool's quota.
pub open spec fn decide(
    quotas: Map<Seq<char>, ToolQuota>,
    ledger: Ledger,
    call: CallView,
    verdict: VerdictView,
) -> (Ledger, DecisionView) {
    let f = (call.name, call.arguments);
    let seen = ledger.seen.push(f);
    if times(ledger.seen, f) + 1 >= LOOP_LIMIT {
        (Ledger { spent: ledger.spent, seen }, DecisionView::Looped(loop_text(call.name)))
    } else if verdict is Some {
        (
            Ledger { spent: ledger.spent, seen },
            DecisionView::Refused("refused by observer: "@ + verdict->0),
        )
    } else if !quotas.contains_key(call.name) {
        (Ledger { spent: ledger.spent, seen }, DecisionView::Allow)
    } else {
        let u = spent_of(ledger.spent, call.name);
        match quota_refusal(quotas[call.name], u, call.name) {
            Some(text) => (Ledger { spent: ledger.spent, seen }, DecisionView::Refused(text)),
            None => (
                Ledger { spent: ledger.spent.insert(call.name, one_more_call(u)), seen },
                DecisionView::Allow,
            ),
        }
    }
}

/// The decisions on all calls of a turn, taken in order.
pub open spec fn decide_all(
    quotas: Map<Seq<char>, ToolQuota>,
    ledger: Ledger,
    calls: Seq<CallView>,
    verdicts: Seq<VerdictView>,
) -> (Ledger, Seq<DecisionView>)
    decreases calls.len(),
{
    if calls.len() == 0 {
        (ledger, Seq::empty())
    } else {
        let k = calls.len() - 1;
        let (l, ds) = decide_all(quotas, ledger, calls.take(k), verdicts);
        let (l2, d) = decide(quotas, l, calls[k], verdicts[k]);
        (l2, ds.push(d))
    }
}

/// How many of the decisions are to run the call.
pub open spec fn allowed(ds: Seq<DecisionView>) -> nat
    decreases ds.len(),
{
    if ds.len() == 0 {
        0
    } else {
        allowed(ds.drop_last()) + (if ds.last() is Allow {
            1nat
        } else {
            0nat
        })
    }
}

/// The result of each call: the refusal's text, or what the tool left.
pub open spec fn results(
    calls: Seq<CallView>,
    ds: Seq<DecisionView>,
    outcomes: Seq<(Seq<char>, u64)>,
) -> Seq<RecordView> {
    Seq::new(
        calls.len(),
        |i: int|
            {
                let (text, time) = match ds[i] {
                    DecisionView::Allow => outcomes[allowed(ds.take(i)) as int],
                    DecisionView::Refused(s) => (s, 0u64),
                    DecisionView::Looped(s) => (s, 0u64),
                };
                RecordView {
                    name: calls[i].name,
                    args: calls[i].arguments,
                    result: text,
                    duration_us: time,
                }
            },
    )
}

/// The smaller of a sum and the largest `u64`.
pub open spec fn sat_u64(n: int) -> int {
    if n > u64::MAX {
        u64::MAX as int
    } else {
        n
    }
}

/// The accounts after the time that each call took.
pub open spec fn charge(
    quotas: Map<Seq<char>, ToolQuota>,
    spent: Map<Seq<char>, QuotaUsage>,
    rs: Seq<RecordView>,
) -> Map<Seq<char>, QuotaUsage>
    decreases rs.len(),
{
    if rs.len() == 0 {
        spent
    } else {
        let before = charge(quotas, spent, rs.drop_last());
        let r = rs.last();
        if quotas.contains_key(r.name) {
            let u = spent_of(before, r.name);
            before.insert(
                r.name,
                QuotaUsage {
                    calls: u.calls,
                    duration_us: sat_u64(u.duration_us + r.duration_us) as u64,
                },
            )
        } else {
            before
        }
    }
}

/// A tool result within the tool's own cap.
pub open spec fn quota_clip(
    quotas: Map<Seq<char>, ToolQuota>,
    name: Seq<char>,
    result: Seq<char>,
) -> Seq<char> {
    if quotas.contains_key(name) && quotas[name].max_result_bytes is Some {
        clip(result, quotas[name].max_result_bytes->0 as nat)
    } else {
        result
    }
}

/// The message that answers one call.
pub open spec fn tool_message(limits: Limits, call: CallView, result: Seq<char>) -> MessageView {
    MessageView {
        role: "tool"@,
        content: Some(
            framed(
                call.name,
                call.id,
                quota_clip(limits.quotas, call.name, result),
                limits.max_tool_result_bytes,
                limits.max_tool_output_chars,
            ),
        ),
        tool_calls: None,
        tool_call_id: Some(call.id),
        name: Some(call.name),
        usage: None,
    }
}

/// The messages that answer the calls of a turn.
pub open spec fn tool_messages(
    limits: Limits,
    calls: Seq<CallView>,
    rs: Seq<RecordView>,
) -> Seq<MessageView> {
    Seq::new(calls.len(), |i: int| tool_message(limits, calls[i], rs[i].result))
}

/// The first of the decisions that ends the step.
pub open spec fn first_loop(ds: Seq<DecisionView>) -> Option<Seq<char>>
    decreases ds.len(),
{
    if ds.len() == 0 {
        None
    } else {
        match first_loop(ds.drop_last()) {
            Some(s) => Some(s),
            None => match ds.last() {
                DecisionView::Looped(s) => Some(s),
                _ => None,
            },
        }
    }
}

/// The deadline has passed.
pub open spec fn expired(limits: Limits, elapsed_ns: u64) -> bool {
    limits.max_step_duration is Some && elapsed_ns >= limits.max_step_duration->0
}

pub open spec fn deadline_text(stage: Seq<char>, elapsed_ns: u64, limit_ns: u64) -> Seq<char> {
    "step deadline exceeded at "@ + stage + ": "@ + (dec((elapsed_ns / 1000000) as nat) + "ms >= "@
        + dec((limit_ns / 1000000) as nat) + "ms"@)
}

/// The step ends.
pub open spec fn finish(a: AgentView, r: Result<Seq<char>, Seq<char>>) -> (AgentView, ActionView) {
    (AgentView { run: RunView { phase: Phase::Idle, ..a.run }, ..a }, ActionView::Done(r))
}

/// A turn begins, unless there were enough or the time is up.
pub open spec fn turn_model(a: AgentView, elapsed_ns: u64) -> (AgentView, ActionView) {
    if a.run.turn >= a.limits.max_steps {
        finish(a, Err("max steps exceeded"@))
    } else if expired(a.limits, elapsed_ns) {
        finish(
            a,
            Err(deadline_text("turn_start"@, elapsed_ns, a.limits.max_step_duration->0)),
        )
    } else {
        (AgentView { run: RunView { phase: Phase::Reply, ..a.run }, ..a }, ActionView::Chat)
    }
}

pub open spec fn begin_model(a: AgentView, input: Seq<char>, elapsed_ns: u64) -> (
    AgentView,
    ActionView,
) {
    turn_model(
        AgentView {
            messages: a.messages.push(plain_view("user"@, input)),
            run: RunView::fresh(),
            ..a
        },
        elapsed_ns,
    )
}

/// The usage that a reply reports.
pub open spec fn usage_of(m: MessageView) -> UsageStats {
    match m.usage {
        Some(u) => u,
        None => UsageStats { prompt_tokens: 0, completion_tokens: 0 },
    }
}

pub open spec fn reply_model(
    a: AgentView,
    reply: Result<MessageView, Seq<char>>,
    elapsed_ns: u64,
) -> (AgentView, ActionView) {
    match reply {
        Err(e) => finish(a, Err(e)),
        Ok(m) => {
            let calls = calls_of(m);
            let b = AgentView {
                messages: a.messages.push(m),
                run: RunView { usage: a.run.usage.plus(usage_of(m)), calls, ..a.run },
                ..a
            };
            if calls.len() == 0 {
                finish(
                    b,
                    Ok(
                        match m.content {
                            Some(s) => s,
                            None => Seq::empty(),
                        },
                    ),
                )
            } else if expired(a.limits, elapsed_ns) {
                finish(
                    b,
                    Err(deadline_text("pre_dispatch"@, elapsed_ns, a.limits.max_step_duration->0)),
                )
            } else {
                (AgentView { run: RunView { phase: Phase::Verdicts, ..b.run }, ..b }, ActionView::Gate)
            }
        },
    }
}

pub open spec fn verdicts_model(a: AgentView, verdicts: Seq<VerdictView>) -> (AgentView, ActionView) {
    let (ledger, decisions) = decide_all(a.limits.quotas, a.run.ledger, a.run.calls, verdicts);
    (
        AgentView { run: RunView { phase: Phase::Outcomes, ledger, decisions, ..a.run }, ..a },
        ActionView::Dispatch,
    )
}

pub open spec fn outcomes_model(
    a: AgentView,
    outcomes: Seq<(Seq<char>, u64)>,
    elapsed_ns: u64,
) -> (AgentView, ActionView) {
    let rs = results(a.run.calls, a.run.decisions, outcomes);
    let b = AgentView {
        messages: a.messages + tool_messages(a.limits, a.run.calls, rs),
        run: RunView {
            turn: a.run.turn + 1,
            ledger: Ledger { spent: charge(a.limits.quotas, a.run.ledger.spent, rs), ..a.run.ledger },
            records: rs,
            ..a.run
        },
        ..a
    };
    match first_loop(a.run.decisions) {
        Some(text) => finish(b, Err(text)),
        None => turn_model(b, elapsed_ns),
    }
}

/// One transition of the machine.
pub open spec fn step_model(a: AgentView, event: EventView, elapsed_ns: u64) -> (
    AgentView,
    ActionView,
) {
    match event {
        EventView::Begin(input) => begin_model(a, input, elapsed_ns),
        EventView::Reply(r) => reply_model(a, r, elapsed_ns),
        EventView::Verdicts(v) => verdicts_model(a, v),
        EventView::Outcomes(o) => outcomes_model(a, o, elapsed_ns),
    }
}

/// The event is one that the machine waits for.
pub open spec fn expected(run: RunView, event: EventView) -> bool {
    match event {
        EventView::Begin(_) => run.phase == Phase::Idle,
        EventView::Reply(_) => run.phase == Phase::Reply,
        EventView::Verdicts(v) => run.phase == Phase::Verdicts && v.len() == run.calls.len(),
        EventView::Outcomes(o) => run.phase == Phase::Outcomes && o.len() == allowed(run.decisions),
    }
}

/// The decisions belong to the pending calls, and the turns stay within their bound.
pub open spec fn run_wf(a: AgentView) -> bool {
    &&& a.run.phase == Phase::Outcomes ==> a.run.decisions.len() == a.run.calls.len()
    &&& a.run.phase != Phase::Idle ==> a.run.turn < a.limits.max_steps
}

pub proof fn lemma_allowed_prefix(ds: Seq<DecisionView>, i: int)
    requires
        0 <= i <= ds.len(),
    ensures
        allowed(ds.take(i)) <= allowed(ds),
        i < ds.len() && ds[i] is Allow ==> allowed(ds.take(i)) < allowed(ds),
    decreases ds.len() - i,
{
    if i < ds.len() {
        lemma_allowed_prefix(ds, i + 1);
        assert(ds.take(i + 1).drop_last() =~= ds.take(i));
    } else {
        assert(ds.take(i) =~= ds);
    }
}

proof fn lemma_decide_len(
    quotas: Map<Seq<char>, ToolQuota>,
    ledger: Ledger,
    calls: Seq<CallView>,
    verdicts: Seq<VerdictView>,
)
    ensures
        decide_all(quotas, ledger, calls, verdicts).1.len() == calls.len(),
    decreases calls.len(),
{
    if calls.len() > 0 {
        lemma_decide_len(quotas, ledger, calls.take(calls.len() - 1), verdicts);
    }
}

impl StepRun {
    pub fn new() -> (r: StepRun)
        ensures
            r@ == RunView::fresh(),
    {
        let r = StepRun {
            phase: Phase::Idle,
            turn: 0,
            usage: UsageStats { prompt_tokens: 0, completion_tokens: 0 },
            spent: Table::new(),
            seen: Vec::new(),
            calls: Vec::new(),
            decisions: Vec::new(),
            records: Vec::new(),
        };
        assert(r@.ledger.seen =~= Seq::empty());
        assert(r@.calls =~= Seq::empty());
        assert(r@.decisions =~= Seq::empty());
        assert(r@.records =~= Seq::empty());
        r
    }
}

/// The text that a dispatched call leaves.
pub fn ending_to_text(e: &Ending) -> (r: String)
    ensures
        r@ == ending_text(*e),
{
    match e {
        Ending::Output(s) => copy(s.as_str()),
        Ending::Failed(m) => cat2("error: ", m.as_str()),
        Ending::Panicked(m) => cat2("error: tool thread panicked: ", m.as_str()),
    }
}

/// How often a call with this name and these arguments was seen.
fn count_times(seen: &Vec<(String, String)>, name: &str, args: &str) -> (r: usize)
    ensures
        r == times(seen_view(seen@), (name@, args@)),
{
    let n: usize = seen.len();
    let mut i: usize = 0;
    let mut count: usize = 0;
    let ghost all = seen_view(seen@);
    assert(all.take(0) =~= Seq::empty());
    while i < n
        invariant
            i <= n,
            n == seen@.len(),
            all == seen_view(seen@),
            count <= i,
            count == times(all.take(i as int), (name@, args@)),
        decreases n - i,
    {
        proof {
            assert(all.take(i as int + 1).drop_last() =~= all.take(i as int));
            assert(all[i as int] == (seen@[i as int].0@, seen@[i as int].1@));
        }
        if same(seen[i].0.as_str(), name) && same(seen[i].1.as_str(), args) {
            count += 1;
        }
        i += 1;
    }
    assert(all.take(n as int) =~= all);
    count
}

/// Decides on one call and keeps the accounts.
fn decide_call(
    quotas: &Table<ToolQuota>,
    spent: &mut Table<QuotaUsage>,
    seen: &mut Vec<(String, String)>,
    call: &ToolCall,
    verdict: &Disposition,
) -> (r: CallDecision)
    ensures
        (Ledger { spent: final(spent)@, seen: seen_view(final(seen)@) }, r@) == decide(
            quotas@,
            Ledger { spent: old(spent)@, seen: seen_view(old(seen)@) },
            call@,
            verdict_view(*verdict),
        ),
{
    let name = call.function.name.as_str();
    let args = call.function.arguments.as_str();
    let before: usize = count_times(seen, name, args);
    let ghost old_seen = seen@;
    seen.push((copy(name), copy(args)));
    assert(seen_view(seen@) =~= seen_view(old_seen).push((name@, args@)));
    if before >= LOOP_LIMIT - 1 {
        return CallDecision::Looped(
            cat3(
                "loop detected: ",
                name,
                " repeated 3 times with identical arguments this step",
            ),
        );
    }
    if let Disposition::Refused(msg) = verdict {
        return CallDecision::Refused(cat2("refused by observer: ", msg.as_str()));
    }
    match quotas.get(name) {
        None => CallDecision::Allow,
        Some(q) => {
            let quota: ToolQuota = *q;
            let used: QuotaUsage = match spent.get(name) {
                Some(u) => *u,
                None => QuotaUsage { calls: 0, duration_us: 0 },
            };
            if let Some(max) = quota.max_calls {
                if used.calls >= max {
                    let n = decimal(max as u64);
                    return CallDecision::Refused(
                        cat5(
                            "quota exceeded: ",
                            name,
                            " reached max ",
                            n.as_str(),
                            " calls this step",
                        ),
                    );
                }
            }
            if let Some(max_us) = quota.max_duration_us {
                if used.duration_us >= max_us {
                    let n = decimal(max_us);
                    return CallDecision::Refused(
                        cat5(
                            "quota exceeded: ",
                            name,
                            " reached max ",
                            n.as_str(),
                            "µs wall time this step",
                        ),
                    );
                }
            }
            let calls: u32 = if used.calls < u32::MAX {
                used.calls + 1
            } else {
                used.calls
            };
            spent.insert(copy(name), QuotaUsage { calls, duration_us: used.duration_us });
            CallDecision::Allow
        },
    }
}

/// Adds the time of one call to its tool's account.
fn charge_call(quotas: &Table<ToolQuota>, spent: &mut Table<QuotaUsage>, name: &str, time: u64)
    ensures
        final(spent)@ == (if quotas@.contains_key(name@) {
            let u = spent_of(old(spent)@, name@);
            old(spent)@.insert(
                name@,
                QuotaUsage { calls: u.calls, duration_us: sat_u64(u.duration_us + time) as u64 },
            )
        } else {
            old(spent)@
        }),
{
    if quotas.contains_key(name) {
        let used: QuotaUsage = match spent.get(name) {
            Some(u) => *u,
            None => QuotaUsage { calls: 0, duration_us: 0 },
        };
        spent.insert(
            copy(name),
            QuotaUsage { calls: used.calls, duration_us: used.duration_us.saturating_add(time) },
        );
    }
}

/// The part of a result that the tool's quota lets through.
fn clip_by_quota(quotas: &Table<ToolQuota>, name: &str, result: &str) -> (r: String)
    ensures
        r@ == quota_clip(quotas@, name@, result@),
{
    if let Some(q) = quotas.get(name) {
        if let Some(cap) = q.max_result_bytes {
            return clip_text(result, cap);
        }
    }
    copy(result)
}

impl Agent {
    fn finish_step(&mut self, r: Result<String, String>) -> (action: StepAction)
        ensures
            (final(self)@, action@) == finish(old(self)@, crate::tool::answer_view(r)),
            final(self).tools == old(self).tools,
            final(self).session == old(self).session,
            final(self).stream == old(self).stream,
    {
        self.run.phase = Phase::Idle;
        StepAction::Done(r)
    }

    fn deadline_error(&self, stage: &str, elapsed_ns: u64) -> (r: Option<String>)
        ensures
            match r {
                Some(e) => expired(self@.limits, elapsed_ns) && e@ == deadline_text(
                    stage@,
                    elapsed_ns,
                    self@.limits.max_step_duration->0,
                ),
                None => !expired(self@.limits, elapsed_ns),
            },
    {
        match self.max_step_duration {
            Some(limit) => {
                if elapsed_ns >= limit {
                    let a = decimal(elapsed_ns / 1000000);
                    let b = decimal(limit / 1000000);
                    let tail = cat4(a.as_str(), "ms >= ", b.as_str(), "ms");
                    Some(cat4("step deadline exceeded at ", stage, ": ", tail.as_str()))
                } else {
                    None
                }
            },
            None => None,
        }
    }

    fn start_turn(&mut self, elapsed_ns: u64) -> (action: StepAction)
        ensures
            (final(self)@, action@) == turn_model(old(self)@, elapsed_ns),
            final(self).tools == old(self).tools,
            final(self).session == old(self).session,
            final(self).stream == old(self).stream,
    {
        if self.run.turn >= self.max_steps {
            return self.finish_step(Err(copy("max steps exceeded")));
        }
        match self.deadline_error("turn_start", elapsed_ns) {
            Some(e) => self.finish_step(Err(e)),
            None => {
                self.run.phase = Phase::Reply;
                StepAction::Chat
            },
        }
    }

    fn begin(&mut self, input: String, elapsed_ns: u64) -> (action: StepAction)
        ensures
            (final(self)@, action@) == begin_model(old(self)@, input@, elapsed_ns),
            final(self).tools == old(self).tools,
            final(self).session == old(self).session,
            final(self).stream == old(self).stream,
    {
        let user = Message::plain("user", input.as_str());
        proof {
            lemma_messages_push(self.messages@, user);
        }
        self.messages.push(user);
        self.run = StepRun::new();
        self.start_turn(elapsed_ns)
    }

    fn take_reply(&mut self, reply: Result<Message, String>, elapsed_ns: u64) -> (action:
        StepAction)
        ensures
            (final(self)@, action@) == reply_model(
                old(self)@,
                match reply {
                    Ok(m) => Ok(m@),
                    Err(e) => Err(e@),
                },
                elapsed_ns,
            ),
            final(self).tools == old(self).tools,
            final(self).session == old(self).session,
            final(self).stream == old(self).stream,
    {
        match reply {
            Err(e) => self.finish_step(Err(e)),
            Ok(m) => {
                let calls = match &m.tool_calls {
                    Some(v) => copy_calls(v),
                    None => Vec::new(),
                };
                proof {
                    assert(calls_view(calls@) =~= calls_of(m@));
                    lemma_messages_push(self.messages@, m);
                }
                let text = match &m.content {
                    Some(s) => copy(s.as_str()),
                    None => String::new(),
                };
                let usage = match m.usage {
                    Some(u) => u,
                    None => UsageStats { prompt_tokens: 0, completion_tokens: 0 },
                };
                self.run.usage = self.run.usage.accumulate(usage);
                self.messages.push(m);
                let none: bool = calls.len() == 0;
                self.run.calls = calls;
                if none {
                    return self.finish_step(Ok(text));
                }
                match self.deadline_error("pre_dispatch", elapsed_ns) {
                    Some(e) => self.finish_step(Err(e)),
                    None => {
                        self.run.phase = Phase::Verdicts;
                        StepAction::Gate
                    },
                }
            },
        }
    }

    fn take_verdicts(&mut self, verdicts: Vec<Disposition>) -> (action: StepAction)
        requires
            verdicts@.len() == old(self).run.calls@.len(),
        ensures
            (final(self)@, action@) == verdicts_model(old(self)@, verdicts_view(verdicts@)),
            final(self).tools == old(self).tools,
            final(self).session == old(self).session,
            final(self).stream == old(self).stream,
    {
        let ghost start = *self;
        let ghost ledger = self@.run.ledger;
        let ghost calls = self@.run.calls;
        let ghost vs = verdicts_view(verdicts@);
        let n: usize = self.run.calls.len();
        let mut decisions: Vec<CallDecision> = Vec::new();
        let mut i: usize = 0;
        assert(calls.take(0) =~= Seq::empty());
        assert(decisions_view(decisions@) =~= Seq::empty());
        while i < n
            invariant
                i <= n,
                n == self.run.calls@.len(),
                n == verdicts@.len(),
                vs == verdicts_view(verdicts@),
                calls == calls_view(self.run.calls@),
                ledger == start@.run.ledger,
                (self@.run.ledger, decisions_view(decisions@)) == decide_all(
                    self.tool_quotas@,
                    ledger,
                    calls.take(i as int),
                    vs,
                ),
                self@ == (AgentView {
                    run: RunView { ledger: self@.run.ledger, ..start@.run },
                    ..start@
                }),
                self.tools == start.tools,
                self.session == start.session,
                self.stream == start.stream,
            decreases n - i,
        {
            let ghost prefix = calls.take(i as int + 1);
            let ghost ds = decisions@;
            let d = decide_call(
                &self.tool_quotas,
                &mut self.run.spent,
                &mut self.run.seen,
                &self.run.calls[i],
                &verdicts[i],
            );
            decisions.push(d);
            proof {
                assert(prefix.take(i as int) =~= calls.take(i as int));
                assert(prefix[i as int] == self.run.calls@[i as int]@);
                assert(vs[i as int] == verdict_view(verdicts@[i as int]));
                assert(decisions_view(decisions@) =~= decisions_view(ds).push(d@));
            }
            i += 1;
        }
        assert(calls.take(n as int) =~= calls);
        self.run.decisions = decisions;
        self.run.phase = Phase::Outcomes;
        StepAction::Dispatch
    }

    #[verifier::rlimit(40)]
    fn take_outcomes(&mut self, outcomes: Vec<ToolOutcome>, elapsed_ns: u64) -> (action: StepAction)
        requires
            old(self).run.decisions@.len() == old(self).run.calls@.len(),
            outcomes@.len() == allowed(old(self)@.run.decisions),
            old(self).run.turn < old(self).max_steps,
        ensures
            (final(self)@, action@) == outcomes_model(
                old(self)@,
                outcomes_view(outcomes@),
                elapsed_ns,
            ),
            final(self).tools == old(self).tools,
            final(self).session == old(self).session,
            final(self).stream == old(self).stream,
    {
        let ghost start = *self;
        let ghost calls = self@.run.calls;
        let ghost ds = self@.run.decisions;
        let ghost rs = results(calls, ds, outcomes_view(outcomes@));
        let ghost msgs = tool_messages(self@.limits, calls, rs);
        let ghost spent = self@.run.ledger.spent;
        let n: usize = self.run.calls.len();
        let mut records: Vec<ToolRecord> = Vec::new();
        let mut looped: Option<String> = None;
        let mut i: usize = 0;
        let mut j: usize = 0;
        proof {
            assert(rs.take(0) =~= Seq::empty());
            assert(ds.take(0) =~= Seq::empty());
            assert(msgs.take(0) =~= Seq::empty());
            assert(records_view(records@) =~= Seq::empty());
            assert(start@.messages + Seq::<MessageView>::empty() =~= start@.messages);
        }
        while i < n
            invariant
                i <= n,
                n == calls.len(),
                n == ds.len(),
                calls == start@.run.calls,
                ds == start@.run.decisions,
                calls == calls_view(self.run.calls@),
                ds == decisions_view(self.run.decisions@),
                n == self.run.calls@.len(),
                n == self.run.decisions@.len(),
                rs == results(calls, ds, outcomes_view(outcomes@)),
                msgs == tool_messages(start@.limits, calls, rs),
                spent == start@.run.ledger.spent,
                outcomes@.len() == allowed(ds),
                j == allowed(ds.take(i as int)),
                records_view(records@) == rs.take(i as int),
                records@.len() == i,
                self.run.spent@ == charge(self.tool_quotas@, spent, rs.take(i as int)),
                self@.messages == start@.messages + msgs.take(i as int),
                crate::message::opt_text(looped) == first_loop(ds.take(i as int)),
                self@ == (AgentView {
                    messages: self@.messages,
                    run: RunView {
                        ledger: Ledger { spent: self.run.spent@, ..start@.run.ledger },
                        ..start@.run
                    },
                    ..start@
                }),
                self.tools == start.tools,
                self.session == start.session,
                self.stream == start.stream,
            decreases n - i,
        {
            proof {
                lemma_allowed_prefix(ds, i as int);
                lemma_allowed_prefix(ds, i as int + 1);
                assert(ds.take(i as int + 1).drop_last() =~= ds.take(i as int));
                assert(rs.take(i as int + 1).drop_last() =~= rs.take(i as int));
                assert(ds[i as int] == self.run.decisions@[i as int]@);
                assert(calls[i as int] == self.run.calls@[i as int]@);
            }
            let (text, time): (String, u64) = match &self.run.decisions[i] {
                CallDecision::Allow => {
                    let o = &outcomes[j];
                    assert(outcomes_view(outcomes@)[j as int] == outcome_view(outcomes@[j as int]));
                    assert(j < outcomes.len());
                    j += 1;
                    let t: u64 = match &o.ending {
                        Ending::Panicked(_) => 0,
                        _ => o.duration_us,
                    };
                    (ending_to_text(&o.ending), t)
                },
                CallDecision::Refused(s) => (copy(s.as_str()), 0),
                CallDecision::Looped(s) => {
                    if looped.is_none() {
                        looped = Some(copy(s.as_str()));
                    }
                    (copy(s.as_str()), 0)
                },
            };
            let name = copy(self.run.calls[i].function.name.as_str());
            let id = copy(self.run.calls[i].id.as_str());
            let args = copy(self.run.calls[i].function.arguments.as_str());
            charge_call(&self.tool_quotas, &mut self.run.spent, name.as_str(), time);
            let kept = clip_by_quota(&self.tool_quotas, name.as_str(), text.as_str());
            let content = self.frame_tool_output(name.as_str(), id.as_str(), kept.as_str());
            let msg = Message {
                role: copy("tool"),
                content: Some(content),
                tool_calls: None,
                tool_call_id: Some(id),
                name: Some(copy(name.as_str())),
                usage: None,
            };
            let record = ToolRecord { name, args, result: text, duration_us: time };
            let ghost before = records@;
            proof {
                lemma_messages_push(self.messages@, msg);
                assert(record@ == rs[i as int]);
                assert(msg@ == msgs[i as int]);
                assert(rs.take(i as int + 1).last() == record@);
                assert(msgs.take(i as int + 1) =~= msgs.take(i as int).push(msg@));
            }
            self.messages.push(msg);
            records.push(record);
            proof {
                assert(records_view(records@) =~= records_view(before).push(record@));
                assert(records_view(records@) =~= rs.take(i as int + 1));
                assert(self@.messages =~= start@.messages + msgs.take(i as int + 1));
            }
            i += 1;
        }
        proof {
            assert(rs.take(n as int) =~= rs);
            assert(ds.take(n as int) =~= ds);
            assert(msgs.take(n as int) =~= msgs);
        }
        self.run.records = records;
        self.run.turn = self.run.turn + 1;
        match looped {
            Some(text) => self.finish_step(Err(text)),
            None => self.start_turn(elapsed_ns),
        }
    }

    /// What the observer is told once the step has come to this action.
    pub fn notices(&self, action: &StepAction) -> (r: Vec<Notice>)
        ensures
            notices_view(r@) == notices_of(self@.run, action@),
    {
        let mut out: Vec<Notice> = Vec::new();
        if let StepAction::Done(result) = action {
            out.push(Notice::Usage(self.run.usage));
            match result {
                Ok(text) => {
                    out.push(Notice::Ended(copy(text.as_str())));
                },
                Err(e) => {
                    out.push(Notice::Failed(copy(e.as_str())));
                },
            }
        }
        assert(notices_view(out@) =~= notices_of(self@.run, action@));
        out
    }

    /// Takes what happened and gives what to do next. The elapsed time counts
    /// from the beginning of the step.
    pub fn step(&mut self, event: StepEvent, elapsed_ns: u64) -> (action: StepAction)
        requires
            run_wf(old(self)@),
            expected(old(self)@.run, event@),
        ensures
            (final(self)@, action@) == step_model(old(self)@, event@, elapsed_ns),
            run_wf(final(self)@),
            final(self).tools == old(self).tools,
            final(self).session == old(self).session,
            final(self).stream == old(self).stream,
    {
        match event {
            StepEvent::Begin(input) => self.begin(input, elapsed_ns),
            StepEvent::Reply(r) => self.take_reply(r, elapsed_ns),
            StepEvent::Verdicts(v) => {
                proof {
                    lemma_decide_len(
                        self@.limits.quotas,
                        self@.run.ledger,
                        self@.run.calls,
                        verdicts_view(v@),
                    );
                }
                self.take_verdicts(v)
            },
            StepEvent::Outcomes(o) => self.take_outcomes(o, elapsed_ns),
        }
    }
}

} // verus!
