//! What holds of every step, whatever the model, the tools and the observer do.
use vstd::prelude::*;
use crate::agent::{framed, AgentView, ToolQuota};
use crate::decimal::dec;
use crate::message::{CallView, MessageView, UsageStats};
use crate::step::{
    allowed, charge, decide, decide_all, expected, expired, first_loop, notices_of, outcome_view,
    quota_refusal, results, spent_of, step_model, times, ActionView, DecisionView, Ending,
    EventView, Ledger, NoticeView, Phase, QuotaUsage, RecordView, RunView, ToolOutcome,
    VerdictView,
};
use crate::text::clip;

verus! {

/// A conversation is only ever extended.
pub proof fn history_only_grows(a: AgentView, event: EventView, elapsed_ns: u64)
    ensures
        ({
            let b = step_model(a, event, elapsed_ns).0;
            &&& a.messages.len() <= b.messages.len()
            &&& b.messages.take(a.messages.len() as int) == a.messages
            &&& b.limits == a.limits
        }),
{
    let b = step_model(a, event, elapsed_ns).0;
    assert(b.messages.take(a.messages.len() as int) =~= a.messages);
}

/// A dispatch adds exactly one message per pending call, in the order of the
/// calls, each with the identifier and the name of its call.
pub proof fn every_call_is_answered_in_order(
    a: AgentView,
    outcomes: Seq<(Seq<char>, u64)>,
    elapsed_ns: u64,
)
    ensures
        ({
            let b = step_model(a, EventView::Outcomes(outcomes), elapsed_ns).0;
            let n = a.messages.len();
            &&& b.messages.len() == n + a.run.calls.len()
            &&& forall|i: int|
                #![trigger a.run.calls[i]]
                0 <= i < a.run.calls.len() ==> {
                    let m = b.messages[n + i];
                    &&& m.role == "tool"@
                    &&& m.tool_call_id == Some(a.run.calls[i].id)
                    &&& m.name == Some(a.run.calls[i].name)
                    &&& m.content is Some
                }
        }),
{
}

/// A reply with calls stays in the conversation as it came, its calls with it, and
/// is directly followed by one message per call, in the order of the calls, each
/// with the identifier and the name of its call. What was there before stays.
pub proof fn calls_are_followed_by_their_answers(
    a: AgentView,
    m: MessageView,
    verdicts: Seq<VerdictView>,
    outcomes: Seq<(Seq<char>, u64)>,
    replied_ns: u64,
    decided_ns: u64,
    done_ns: u64,
)
    requires
        m.tool_calls is Some,
        m.tool_calls->0.len() > 0,
        !expired(a.limits, replied_ns),
    ensures
        ({
            let calls = m.tool_calls->0;
            let n = a.messages.len() as int;
            let (b, first) = step_model(a, EventView::Reply(Ok(m)), replied_ns);
            let (c, second) = step_model(b, EventView::Verdicts(verdicts), decided_ns);
            let d = step_model(c, EventView::Outcomes(outcomes), done_ns).0;
            &&& first is Gate
            &&& second is Dispatch
            &&& d.messages.len() == n + 1 + calls.len()
            &&& d.messages.take(n) == a.messages
            &&& d.messages[n] == m
            &&& forall|i: int|
                #![trigger calls[i]]
                0 <= i < calls.len() ==> {
                    let answer = d.messages[n + 1 + i];
                    &&& answer.role == "tool"@
                    &&& answer.tool_call_id == Some(calls[i].id)
                    &&& answer.name == Some(calls[i].name)
                    &&& answer.content is Some
                }
        }),
{
    let b = step_model(a, EventView::Reply(Ok(m)), replied_ns).0;
    let c = step_model(b, EventView::Verdicts(verdicts), decided_ns).0;
    let d = step_model(c, EventView::Outcomes(outcomes), done_ns).0;
    assert(d.messages.take(a.messages.len() as int) =~= a.messages);
    every_call_is_answered_in_order(c, outcomes, done_ns);
}

/// A call that the observer refuses does not run, and the model is told why.
pub proof fn refused_calls_do_not_run(
    quotas: Map<Seq<char>, ToolQuota>,
    ledger: Ledger,
    calls: Seq<CallView>,
    verdicts: Seq<VerdictView>,
    i: int,
)
    requires
        calls.len() == verdicts.len(),
        0 <= i < calls.len(),
        verdicts[i] is Some,
    ensures
        ({
            let d = decide_all(quotas, ledger, calls, verdicts).1[i];
            &&& !(d is Allow)
            &&& d is Refused ==> d == DecisionView::Refused(
                "refused by observer: "@ + verdicts[i]->0,
            )
        }),
    decreases calls.len(),
{
    let k = calls.len() - 1;
    lemma_decisions(quotas, ledger, calls.take(k), verdicts);
    if i < k {
        refused_calls_do_not_run(quotas, ledger, calls.take(k), verdicts.take(k), i);
        lemma_verdict_prefix(quotas, ledger, calls.take(k), verdicts, verdicts.take(k));
    }
}

proof fn lemma_verdict_prefix(
    quotas: Map<Seq<char>, ToolQuota>,
    ledger: Ledger,
    calls: Seq<CallView>,
    v: Seq<VerdictView>,
    w: Seq<VerdictView>,
)
    requires
        calls.len() <= v.len(),
        calls.len() <= w.len(),
        forall|i: int| 0 <= i < calls.len() ==> v[i] == w[i],
    ensures
        decide_all(quotas, ledger, calls, v) == decide_all(quotas, ledger, calls, w),
    decreases calls.len(),
{
    if calls.len() > 0 {
        lemma_verdict_prefix(quotas, ledger, calls.take(calls.len() - 1), v, w);
    }
}

proof fn lemma_decisions(
    quotas: Map<Seq<char>, ToolQuota>,
    ledger: Ledger,
    calls: Seq<CallView>,
    verdicts: Seq<VerdictView>,
)
    ensures
        decide_all(quotas, ledger, calls, verdicts).1.len() == calls.len(),
    decreases calls.len(),
{
    if calls.len() > 0 {
        lemma_decisions(quotas, ledger, calls.take(calls.len() - 1), verdicts);
    }
}

/// How many of the calls of a tool are allowed.
pub open spec fn allowed_for(calls: Seq<CallView>, ds: Seq<DecisionView>, name: Seq<char>) -> nat
    decreases ds.len(),
{
    if ds.len() == 0 {
        0
    } else {
        allowed_for(calls, ds.drop_last(), name) + (if ds.last() is Allow && calls[ds.len()
            - 1].name == name {
            1nat
        } else {
            0nat
        })
    }
}

proof fn lemma_allowed_for_prefix(
    calls: Seq<CallView>,
    more: Seq<CallView>,
    ds: Seq<DecisionView>,
    name: Seq<char>,
)
    requires
        ds.len() <= calls.len() <= more.len(),
        forall|i: int| 0 <= i < calls.len() ==> calls[i] == more[i],
    ensures
        allowed_for(calls, ds, name) == allowed_for(more, ds, name),
    decreases ds.len(),
{
    if ds.len() > 0 {
        lemma_allowed_for_prefix(calls, more, ds.drop_last(), name);
    }
}

/// The account of a tool with a call limit counts its allowed calls and never
/// passes the limit.
pub proof fn a_turn_respects_the_call_limit(
    quotas: Map<Seq<char>, ToolQuota>,
    ledger: Ledger,
    calls: Seq<CallView>,
    verdicts: Seq<VerdictView>,
    name: Seq<char>,
)
    requires
        quotas.contains_key(name),
        quotas[name].max_calls is Some,
        spent_of(ledger.spent, name).calls <= quotas[name].max_calls->0,
    ensures
        ({
            let (after, ds) = decide_all(quotas, ledger, calls, verdicts);
            &&& spent_of(after.spent, name).calls == spent_of(ledger.spent, name).calls
                + allowed_for(calls, ds, name)
            &&& spent_of(after.spent, name).calls <= quotas[name].max_calls->0
        }),
    decreases calls.len(),
{
    if calls.len() > 0 {
        let k = calls.len() - 1;
        a_turn_respects_the_call_limit(quotas, ledger, calls.take(k), verdicts, name);
        lemma_decisions(quotas, ledger, calls.take(k), verdicts);
        let (l, ds) = decide_all(quotas, ledger, calls.take(k), verdicts);
        let (l2, d) = decide(quotas, l, calls[k], verdicts[k]);
        lemma_allowed_for_prefix(calls.take(k), calls, ds, name);
        assert(ds.push(d).drop_last() =~= ds);
    }
}

/// Charging time leaves the call counts alone.
proof fn lemma_charge_keeps_calls(
    quotas: Map<Seq<char>, ToolQuota>,
    spent: Map<Seq<char>, QuotaUsage>,
    rs: Seq<RecordView>,
    name: Seq<char>,
)
    ensures
        spent_of(charge(quotas, spent, rs), name).calls == spent_of(spent, name).calls,
    decreases rs.len(),
{
    if rs.len() > 0 {
        lemma_charge_keeps_calls(quotas, spent, rs.drop_last(), name);
    }
}

/// What happened in a step, with the time at which it happened.
pub type Trace = Seq<(EventView, u64)>;

/// The agent after a trace.
pub open spec fn play(a: AgentView, t: Trace) -> AgentView
    decreases t.len(),
{
    if t.len() == 0 {
        a
    } else {
        let (e, ns) = t.last();
        step_model(play(a, t.drop_last()), e, ns).0
    }
}

/// A trace of one step: it begins with a user input and goes on with the events
/// that the machine waits for.
pub open spec fn is_step(a: AgentView, t: Trace) -> bool
    decreases t.len(),
{
    &&& t.len() > 0
    &&& if t.len() == 1 {
        t[0].0 is Begin && expected(a.run, t[0].0)
    } else {
        &&& is_step(a, t.drop_last())
        &&& !(t.last().0 is Begin)
        &&& expected(play(a, t.drop_last()).run, t.last().0)
    }
}

/// How many calls of a tool were allowed in a trace.
pub open spec fn ran(a: AgentView, t: Trace, name: Seq<char>) -> nat
    decreases t.len(),
{
    if t.len() == 0 {
        0
    } else {
        let before = play(a, t.drop_last());
        ran(a, t.drop_last(), name) + (match t.last().0 {
            EventView::Verdicts(v) => allowed_for(
                before.run.calls,
                decide_all(before.limits.quotas, before.run.ledger, before.run.calls, v).1,
                name,
            ),
            _ => 0nat,
        })
    }
}

/// How many inference turns were started in a trace.
pub open spec fn chats(a: AgentView, t: Trace) -> nat
    decreases t.len(),
{
    if t.len() == 0 {
        0
    } else {
        let (e, ns) = t.last();
        chats(a, t.drop_last()) + (if step_model(play(a, t.drop_last()), e, ns).1 is Chat {
            1nat
        } else {
            0nat
        })
    }
}

/// The tokens that the backend reported in a trace.
pub open spec fn reported(t: Trace) -> UsageStats
    decreases t.len(),
{
    if t.len() == 0 {
        UsageStats { prompt_tokens: 0, completion_tokens: 0 }
    } else {
        match t.last().0 {
            EventView::Reply(r) => match r {
                Ok(m) => match m.usage {
                    Some(u) => reported(t.drop_last()).plus(u),
                    None => reported(t.drop_last()),
                },
                Err(_) => reported(t.drop_last()),
            },
            _ => reported(t.drop_last()),
        }
    }
}

proof fn lemma_limits(a: AgentView, t: Trace)
    ensures
        play(a, t).limits == a.limits,
    decreases t.len(),
{
    if t.len() > 0 {
        lemma_limits(a, t.drop_last());
    }
}

/// No tool with a call limit runs more often in a step than its limit allows.
pub proof fn a_step_respects_the_call_limit(a: AgentView, t: Trace, name: Seq<char>)
    requires
        is_step(a, t),
        a.limits.quotas.contains_key(name),
        a.limits.quotas[name].max_calls is Some,
    ensures
        ran(a, t, name) <= a.limits.quotas[name].max_calls->0,
        spent_of(play(a, t).run.ledger.spent, name).calls == ran(a, t, name),
    decreases t.len(),
{
    let p = t.drop_last();
    let before = play(a, p);
    let max = a.limits.quotas[name].max_calls->0;
    lemma_limits(a, p);
    if t.len() == 1 {
        assert(p.len() == 0);
        assert(ran(a, p, name) == 0);
    } else {
        a_step_respects_the_call_limit(a, p, name);
        match t.last().0 {
            EventView::Verdicts(v) => {
                a_turn_respects_the_call_limit(
                    a.limits.quotas,
                    before.run.ledger,
                    before.run.calls,
                    v,
                    name,
                );
            },
            EventView::Outcomes(o) => {
                let rs = results(before.run.calls, before.run.decisions, o);
                lemma_charge_keeps_calls(
                    a.limits.quotas,
                    before.run.ledger.spent,
                    rs,
                    name,
                );
            },
            _ => {},
        }
    }
}

/// A step runs at most as many inference turns as it may.
pub proof fn a_step_takes_at_most_max_steps_turns(a: AgentView, t: Trace)
    requires
        is_step(a, t),
    ensures
        chats(a, t) <= a.limits.max_steps,
        play(a, t).run.phase != Phase::Idle ==> chats(a, t) == play(a, t).run.turn + 1,
        play(a, t).run.phase != Phase::Idle ==> play(a, t).run.turn < a.limits.max_steps,
    decreases t.len(),
{
    let p = t.drop_last();
    lemma_limits(a, p);
    if t.len() == 1 {
        assert(chats(a, p) == 0);
    } else {
        a_step_takes_at_most_max_steps_turns(a, p);
    }
}

/// At every moment of a step, and so at its end however it ends, the usage is
/// that of all replies together.
pub proof fn usage_adds_up(a: AgentView, t: Trace)
    requires
        is_step(a, t),
    ensures
        play(a, t).run.usage == reported(t),
    decreases t.len(),
{
    let p = t.drop_last();
    if t.len() == 1 {
        assert(reported(p) == UsageStats { prompt_tokens: 0, completion_tokens: 0 });
    } else {
        usage_adds_up(a, p);
    }
}

/// The usage that the observer is told of in a trace.
pub open spec fn told(a: AgentView, t: Trace) -> Seq<UsageStats>
    decreases t.len(),
{
    if t.len() == 0 {
        Seq::empty()
    } else {
        let (e, ns) = t.last();
        let (b, action) = step_model(play(a, t.drop_last()), e, ns);
        told(a, t.drop_last()) + usages(notices_of(b.run, action))
    }
}

/// The usage among what the observer is told.
pub open spec fn usages(ns: Seq<NoticeView>) -> Seq<UsageStats>
    decreases ns.len(),
{
    if ns.len() == 0 {
        Seq::empty()
    } else {
        match ns.last() {
            NoticeView::Usage(u) => usages(ns.drop_last()).push(u),
            _ => usages(ns.drop_last()),
        }
    }
}

proof fn lemma_usages(run: RunView, action: ActionView)
    ensures
        usages(notices_of(run, action)) == (if action is Done {
            seq![run.usage]
        } else {
            Seq::empty()
        }),
{
    let ns = notices_of(run, action);
    if action is Done {
        assert(ns.drop_last().drop_last() =~= Seq::<NoticeView>::empty());
        assert(usages(ns.drop_last().drop_last()) =~= Seq::<UsageStats>::empty());
        assert(usages(ns.drop_last()) =~= seq![run.usage]);
    }
}

/// However a step ends, the observer is told of its usage exactly once, at its end,
/// and the usage is that of all its replies together. Before, it is told nothing.
pub proof fn usage_is_told_once_at_every_end(a: AgentView, t: Trace)
    requires
        is_step(a, t),
    ensures
        told(a, t) == (if play(a, t).run.phase == Phase::Idle {
            seq![reported(t)]
        } else {
            Seq::empty()
        }),
    decreases t.len(),
{
    let p = t.drop_last();
    let (e, ns) = t.last();
    let (b, action) = step_model(play(a, p), e, ns);
    lemma_usages(b.run, action);
    usage_adds_up(a, t);
    if t.len() == 1 {
        assert(told(a, p) =~= Seq::<UsageStats>::empty());
    } else {
        usage_is_told_once_at_every_end(a, p);
    }
    assert(told(a, t) =~= if b.run.phase == Phase::Idle {
        seq![reported(t)]
    } else {
        Seq::empty()
    });
}

/// Past the deadline no inference turn and no dispatch is begun.
pub proof fn nothing_starts_after_the_deadline(a: AgentView, event: EventView, elapsed_ns: u64)
    requires
        expired(a.limits, elapsed_ns),
    ensures
        ({
            let action = step_model(a, event, elapsed_ns).1;
            !(action is Chat) && !(action is Gate)
        }),
{
}

proof fn lemma_first_loop(ds: Seq<DecisionView>, i: int)
    requires
        0 <= i < ds.len(),
        ds[i] is Looped,
    ensures
        first_loop(ds) is Some,
    decreases ds.len(),
{
    if i < ds.len() - 1 {
        lemma_first_loop(ds.drop_last(), i);
    }
}

/// The names and arguments of some calls.
pub open spec fn fingerprints(calls: Seq<CallView>) -> Seq<(Seq<char>, Seq<char>)> {
    calls.map_values(|c: CallView| (c.name, c.arguments))
}

/// A call whose name and arguments were already seen twice in the step, in earlier
/// replies or before it in the same one, does not run, and once the turn's results
/// are in, the step ends without another inference turn.
pub proof fn a_third_repeat_ends_the_step(
    a: AgentView,
    verdicts: Seq<VerdictView>,
    outcomes: Seq<(Seq<char>, u64)>,
    i: int,
    elapsed_ns: u64,
)
    requires
        a.run.calls.len() == verdicts.len(),
        0 <= i < a.run.calls.len(),
        times(
            a.run.ledger.seen + fingerprints(a.run.calls.take(i)),
            (a.run.calls[i].name, a.run.calls[i].arguments),
        ) >= 2,
    ensures
        ({
            let b = step_model(a, EventView::Verdicts(verdicts), elapsed_ns).0;
            let (c, action) = step_model(b, EventView::Outcomes(outcomes), elapsed_ns);
            &&& b.run.decisions[i] is Looped
            &&& action is Done
            &&& action->Done_0 is Err
            &&& c.run.phase == Phase::Idle
        }),
{
    lemma_repeat_is_looped(a.limits.quotas, a.run.ledger, a.run.calls, verdicts, i);
    let b = step_model(a, EventView::Verdicts(verdicts), elapsed_ns).0;
    lemma_decisions(a.limits.quotas, a.run.ledger, a.run.calls, verdicts);
    lemma_first_loop(b.run.decisions, i);
}

proof fn lemma_seen(
    quotas: Map<Seq<char>, ToolQuota>,
    ledger: Ledger,
    calls: Seq<CallView>,
    verdicts: Seq<VerdictView>,
)
    ensures
        decide_all(quotas, ledger, calls, verdicts).0.seen == ledger.seen + fingerprints(calls),
    decreases calls.len(),
{
    if calls.len() > 0 {
        lemma_seen(quotas, ledger, calls.take(calls.len() - 1), verdicts);
    }
    assert(decide_all(quotas, ledger, calls, verdicts).0.seen =~= ledger.seen + fingerprints(
        calls,
    ));
}

proof fn lemma_repeat_is_looped(
    quotas: Map<Seq<char>, ToolQuota>,
    ledger: Ledger,
    calls: Seq<CallView>,
    verdicts: Seq<VerdictView>,
    i: int,
)
    requires
        0 <= i < calls.len(),
        times(
            ledger.seen + fingerprints(calls.take(i)),
            (calls[i].name, calls[i].arguments),
        ) >= 2,
    ensures
        decide_all(quotas, ledger, calls, verdicts).1[i] is Looped,
    decreases calls.len(),
{
    let k = calls.len() - 1;
    lemma_decisions(quotas, ledger, calls.take(k), verdicts);
    if i < k {
        assert(calls.take(k).take(i) =~= calls.take(i));
        lemma_repeat_is_looped(quotas, ledger, calls.take(k), verdicts, i);
    } else {
        lemma_seen(quotas, ledger, calls.take(k), verdicts);
    }
}

/// A name and arguments were called twice or more.
pub open spec fn called_twice(
    seen: Seq<(Seq<char>, Seq<char>)>,
    f: (Seq<char>, Seq<char>),
) -> bool {
    exists|j: int, k: int|
        0 <= j < k < seen.len() && #[trigger] seen[j] == f && #[trigger] seen[k] == f
}

proof fn lemma_times(seen: Seq<(Seq<char>, Seq<char>)>, f: (Seq<char>, Seq<char>))
    ensures
        times(seen, f) > 0 <==> seen.contains(f),
        times(seen, f) >= 2 <==> called_twice(seen, f),
    decreases seen.len(),
{
    if seen.len() > 0 {
        let p = seen.drop_last();
        let n = seen.len() - 1;
        lemma_times(p, f);
        assert(seen.contains(f) <==> p.contains(f) || seen[n] == f) by {
            if p.contains(f) {
                let j = choose|j: int| 0 <= j < p.len() && p[j] == f;
                assert(seen[j] == f);
            }
            if seen.contains(f) {
                let j = choose|j: int| 0 <= j < seen.len() && seen[j] == f;
                if j < n {
                    assert(p[j] == f);
                }
            }
        }
        if called_twice(p, f) {
            let (j, k) = choose|j: int, k: int|
                0 <= j < k < p.len() && #[trigger] p[j] == f && #[trigger] p[k] == f;
            assert(seen[j] == f && seen[k] == f);
        }
        if p.contains(f) && seen[n] == f {
            let j = choose|j: int| 0 <= j < p.len() && p[j] == f;
            assert(seen[j] == f);
        }
        if called_twice(seen, f) {
            let (j, k) = choose|j: int, k: int|
                0 <= j < k < seen.len() && #[trigger] seen[j] == f && #[trigger] seen[k] == f;
            assert(p[j] == f);
            if k < n {
                assert(p[k] == f);
            }
        }
    }
}

/// How often the tool of a name was allowed to run, up to the largest count.
pub open spec fn calls_used(
    ledger: Ledger,
    calls: Seq<CallView>,
    ds: Seq<DecisionView>,
    name: Seq<char>,
) -> int {
    let n = spent_of(ledger.spent, name).calls + allowed_for(calls, ds, name);
    if n <= u32::MAX {
        n
    } else {
        u32::MAX as int
    }
}

/// The quota of a tool is used up.
pub open spec fn used_up(q: ToolQuota, calls: int, duration_us: u64) -> bool {
    ||| q.max_calls is Some && calls >= q.max_calls->0
    ||| q.max_duration_us is Some && duration_us >= q.max_duration_us->0
}

proof fn lemma_accounts(
    quotas: Map<Seq<char>, ToolQuota>,
    ledger: Ledger,
    calls: Seq<CallView>,
    verdicts: Seq<VerdictView>,
    name: Seq<char>,
)
    requires
        quotas.contains_key(name),
    ensures
        ({
            let (after, ds) = decide_all(quotas, ledger, calls, verdicts);
            &&& spent_of(after.spent, name).calls == calls_used(ledger, calls, ds, name)
            &&& spent_of(after.spent, name).duration_us == spent_of(ledger.spent, name).duration_us
        }),
    decreases calls.len(),
{
    if calls.len() > 0 {
        let k = calls.len() - 1;
        lemma_accounts(quotas, ledger, calls.take(k), verdicts, name);
        lemma_decisions(quotas, ledger, calls.take(k), verdicts);
        let (l, ds) = decide_all(quotas, ledger, calls.take(k), verdicts);
        let (l2, d) = decide(quotas, l, calls[k], verdicts[k]);
        lemma_allowed_for_prefix(calls.take(k), calls, ds, name);
        assert(ds.push(d).drop_last() =~= ds);
    }
}

proof fn lemma_decision_prefix(
    quotas: Map<Seq<char>, ToolQuota>,
    ledger: Ledger,
    calls: Seq<CallView>,
    verdicts: Seq<VerdictView>,
    i: int,
)
    requires
        0 <= i < calls.len(),
    ensures
        ({
            let ds = decide_all(quotas, ledger, calls, verdicts).1;
            let (l, before) = decide_all(quotas, ledger, calls.take(i), verdicts);
            &&& ds.len() == calls.len()
            &&& ds.take(i) == before
            &&& ds[i] == decide(quotas, l, calls[i], verdicts[i]).1
        }),
    decreases calls.len(),
{
    let k = calls.len() - 1;
    lemma_decisions(quotas, ledger, calls.take(k), verdicts);
    let ds = decide_all(quotas, ledger, calls, verdicts).1;
    if i < k {
        lemma_decision_prefix(quotas, ledger, calls.take(k), verdicts, i);
        assert(calls.take(k).take(i) =~= calls.take(i));
        assert(ds.take(i) =~= decide_all(quotas, ledger, calls.take(k), verdicts).1.take(i));
    } else {
        assert(ds.take(i) =~= decide_all(quotas, ledger, calls.take(k), verdicts).1);
    }
}

/// What is decided of every pending call. It is stopped as a loop exactly when the same
/// name with the same arguments was called twice before in the step; else it is refused
/// when the observer refuses it, with the observer's reason, or when its tool's quota
/// is used up; else it runs. In particular a call that is new, that the observer allows
/// and whose tool has no quota always runs.
pub proof fn every_call_runs_unless_there_is_a_reason(
    a: AgentView,
    verdicts: Seq<VerdictView>,
    elapsed_ns: u64,
    i: int,
)
    requires
        a.run.calls.len() == verdicts.len(),
        0 <= i < a.run.calls.len(),
    ensures
        ({
            let (b, action) = step_model(a, EventView::Verdicts(verdicts), elapsed_ns);
            let d = b.run.decisions[i];
            let call = a.run.calls[i];
            let earlier = a.run.ledger.seen + fingerprints(a.run.calls.take(i));
            let looped = called_twice(earlier, (call.name, call.arguments));
            let spent = a.limits.quotas.contains_key(call.name) && used_up(
                a.limits.quotas[call.name],
                calls_used(
                    a.run.ledger,
                    a.run.calls.take(i),
                    b.run.decisions.take(i),
                    call.name,
                ),
                spent_of(a.run.ledger.spent, call.name).duration_us,
            );
            &&& action is Dispatch
            &&& b.run.decisions.len() == a.run.calls.len()
            &&& b.run.calls == a.run.calls
            &&& d is Looped <==> looped
            &&& d is Refused <==> !looped && (verdicts[i] is Some || spent)
            &&& d is Allow <==> !looped && verdicts[i] is None && !spent
            &&& !looped && verdicts[i] is Some ==> d == DecisionView::Refused(
                "refused by observer: "@ + verdicts[i]->0,
            )
            &&& looped ==> d == DecisionView::Looped(
                "loop detected: "@ + call.name
                    + " repeated 3 times with identical arguments this step"@,
            )
        }),
{
    let quotas = a.limits.quotas;
    let calls = a.run.calls;
    let call = calls[i];
    lemma_decision_prefix(quotas, a.run.ledger, calls, verdicts, i);
    lemma_seen(quotas, a.run.ledger, calls.take(i), verdicts);
    let earlier = a.run.ledger.seen + fingerprints(calls.take(i));
    lemma_times(earlier, (call.name, call.arguments));
    if quotas.contains_key(call.name) {
        lemma_accounts(quotas, a.run.ledger, calls.take(i), verdicts, call.name);
    }
}

/// The calls that the replies of a trace ask for, in order.
pub open spec fn asked(t: Trace) -> Seq<(Seq<char>, Seq<char>)>
    decreases t.len(),
{
    if t.len() == 0 {
        Seq::empty()
    } else {
        asked(t.drop_last()) + (match t.last().0 {
            EventView::Reply(Ok(m)) => match m.tool_calls {
                Some(cs) => fingerprints(cs),
                None => Seq::empty(),
            },
            _ => Seq::empty(),
        })
    }
}

/// While a step runs, every call that a reply asked for is kept in mind until the end of
/// the step, in order; those of the last reply are pending until they are decided on.
pub proof fn a_step_remembers_every_call(a: AgentView, t: Trace)
    requires
        is_step(a, t),
    ensures
        ({
            let run = play(a, t).run;
            &&& run.phase == Phase::Verdicts ==> run.ledger.seen + fingerprints(run.calls) == asked(
                t,
            )
            &&& run.phase == Phase::Reply || run.phase == Phase::Outcomes ==> run.ledger.seen
                == asked(t)
        }),
    decreases t.len(),
{
    let p = t.drop_last();
    let before = play(a, p);
    if t.len() == 1 {
        assert(asked(p) =~= Seq::empty());
        assert(asked(t) =~= Seq::empty());
    } else {
        a_step_remembers_every_call(a, p);
        match t.last().0 {
            EventView::Reply(r) => {
                if r is Ok {
                    let m = r->Ok_0;
                    if m.tool_calls is Some {
                        assert(before.run.ledger.seen + fingerprints(m.tool_calls->0) =~= asked(t));
                    }
                }
            },
            EventView::Verdicts(v) => {
                lemma_seen(before.limits.quotas, before.run.ledger, before.run.calls, v);
                assert(asked(t) =~= asked(p));
            },
            EventView::Outcomes(o) => {
                assert(asked(t) =~= asked(p));
            },
            EventView::Begin(_) => {},
        }
    }
}

/// A step begins with the user's input at the end of the conversation and a clean
/// slate, and asks the model at once, unless it has no turns or no time.
pub proof fn a_step_begins_with_the_input(a: AgentView, input: Seq<char>, elapsed_ns: u64)
    ensures
        ({
            let (b, action) = step_model(a, EventView::Begin(input), elapsed_ns);
            &&& b.messages.len() == a.messages.len() + 1
            &&& b.messages.last().role == "user"@
            &&& b.messages.last().content == Some(input)
            &&& b.messages.last().tool_calls is None
            &&& b.messages.last().tool_call_id is None
            &&& b.run.turn == 0
            &&& b.run.usage == (UsageStats { prompt_tokens: 0, completion_tokens: 0 })
            &&& b.run.ledger.seen.len() == 0
            &&& b.run.ledger.spent == Map::<Seq<char>, QuotaUsage>::empty()
            &&& action is Chat <==> a.limits.max_steps > 0 && !out_of_time(a, elapsed_ns)
            &&& action is Chat || action is Done && action->Done_0 is Err
            &&& action is Chat <==> b.run.phase == Phase::Reply
        }),
{
}

/// The time of a step is up.
pub open spec fn out_of_time(a: AgentView, elapsed_ns: u64) -> bool {
    match a.limits.max_step_duration {
        Some(max) => elapsed_ns >= max,
        None => false,
    }
}

/// What follows a reply: an answer without calls ends the step with that answer, a
/// failed reply ends it with its error, and a reply with calls is taken to the
/// observer while there is time. Every reply but a failed one joins the conversation.
pub proof fn a_reply_answers_or_asks(
    a: AgentView,
    reply: Result<MessageView, Seq<char>>,
    elapsed_ns: u64,
)
    ensures
        ({
            let (b, action) = step_model(a, EventView::Reply(reply), elapsed_ns);
            match reply {
                Err(e) => {
                    &&& action == ActionView::Done(Err::<Seq<char>, Seq<char>>(e))
                    &&& b.messages == a.messages
                    &&& b.run.phase == Phase::Idle
                },
                Ok(m) => {
                    let calls = match m.tool_calls {
                        Some(cs) => cs,
                        None => Seq::empty(),
                    };
                    &&& b.messages == a.messages.push(m)
                    &&& b.run.turn == a.run.turn
                    &&& b.run.ledger == a.run.ledger
                    &&& if calls.len() == 0 {
                        &&& b.run.phase == Phase::Idle
                        &&& action == ActionView::Done(
                            Ok::<Seq<char>, Seq<char>>(
                                match m.content {
                                    Some(s) => s,
                                    None => Seq::empty(),
                                },
                            ),
                        )
                    } else if out_of_time(a, elapsed_ns) {
                        b.run.phase == Phase::Idle && action is Done && action->Done_0 is Err
                    } else {
                        b.run.phase == Phase::Verdicts && action is Gate && b.run.calls == calls
                    }
                },
            }
        }),
{
}

/// Once the results of a turn are in, the model is asked again, unless a call was
/// stopped as a loop, there were as many turns as there may be, or the time is up.
pub proof fn a_step_goes_on_after_its_calls(
    a: AgentView,
    outcomes: Seq<(Seq<char>, u64)>,
    elapsed_ns: u64,
)
    ensures
        ({
            let (b, action) = step_model(a, EventView::Outcomes(outcomes), elapsed_ns);
            let looped = exists|i: int|
                0 <= i < a.run.decisions.len() && (#[trigger] a.run.decisions[i]) is Looped;
            &&& b.run.turn == a.run.turn + 1
            &&& b.run.usage == a.run.usage
            &&& b.run.ledger.seen == a.run.ledger.seen
            &&& action is Chat <==> !looped && a.run.turn + 1 < a.limits.max_steps && !out_of_time(
                a,
                elapsed_ns,
            )
            &&& action is Chat || action is Done && action->Done_0 is Err
            &&& action is Chat <==> b.run.phase == Phase::Reply
            &&& action is Done <==> b.run.phase == Phase::Idle
            &&& looped ==> exists|i: int|
                0 <= i < a.run.decisions.len() && (#[trigger] a.run.decisions[i]) is Looped
                    && action == ActionView::Done(
                    Err::<Seq<char>, Seq<char>>(a.run.decisions[i]->Looped_0),
                ) && forall|j: int| 0 <= j < i ==> !((#[trigger] a.run.decisions[j]) is Looped)
            &&& !looped && a.run.turn + 1 >= a.limits.max_steps ==> action == ActionView::Done(
                Err::<Seq<char>, Seq<char>>("max steps exceeded"@),
            )
        }),
{
    lemma_first_loop_is_one(a.run.decisions);
    if exists|i: int| 0 <= i < a.run.decisions.len() && (#[trigger] a.run.decisions[i]) is Looped {
        let i = choose|i: int|
            0 <= i < a.run.decisions.len() && (#[trigger] a.run.decisions[i]) is Looped;
        lemma_first_loop(a.run.decisions, i);
    }
}

proof fn lemma_first_loop_is_one(ds: Seq<DecisionView>)
    ensures
        first_loop(ds) is Some ==> exists|i: int|
            0 <= i < ds.len() && (#[trigger] ds[i]) is Looped && ds[i]->Looped_0 == first_loop(
                ds,
            )->0 && forall|j: int| 0 <= j < i ==> !((#[trigger] ds[j]) is Looped),
        first_loop(ds) is None ==> forall|j: int|
            0 <= j < ds.len() ==> !((#[trigger] ds[j]) is Looped),
    decreases ds.len(),
{
    if ds.len() > 0 {
        let p = ds.drop_last();
        let n = ds.len() - 1;
        lemma_first_loop_is_one(p);
        if first_loop(p) is Some {
            let i = choose|i: int|
                0 <= i < p.len() && (#[trigger] p[i]) is Looped && p[i]->Looped_0 == first_loop(
                    p,
                )->0 && forall|j: int| 0 <= j < i ==> !((#[trigger] p[j]) is Looped);
            assert(ds[i] == p[i]);
            assert forall|j: int| 0 <= j < i implies !((#[trigger] ds[j]) is Looped) by {
                assert(p[j] == ds[j]);
            }
        } else {
            assert forall|j: int| 0 <= j < n implies !((#[trigger] ds[j]) is Looped) by {
                assert(p[j] == ds[j]);
            }
            if ds[n] is Looped {
                assert(first_loop(ds) == Some(ds[n]->Looped_0));
            }
        }
    }
}

/// How many of the first `i` calls run.
pub open spec fn running_before(ds: Seq<DecisionView>, i: int) -> int {
    ds.take(i).filter(|d: DecisionView| d is Allow).len() as int
}

proof fn lemma_allowed_counts(ds: Seq<DecisionView>)
    ensures
        allowed(ds) == ds.filter(|d: DecisionView| d is Allow).len(),
    decreases ds.len(),
{
    let runs = |d: DecisionView| d is Allow;
    if ds.len() > 0 {
        lemma_allowed_counts(ds.drop_last());
        assert(ds =~= ds.drop_last().push(ds.last()));
        ds.drop_last().lemma_filter_push(ds.last(), runs);
    } else {
        assert(ds.filter(runs).len() == 0);
    }
}

/// The records of a turn: each call that ran has its own outcome, and each that did not
/// has the reason and took no time.
pub proof fn every_call_has_its_own_outcome(
    a: AgentView,
    outcomes: Seq<(Seq<char>, u64)>,
    elapsed_ns: u64,
    i: int,
)
    requires
        0 <= i < a.run.calls.len(),
        a.run.decisions.len() == a.run.calls.len(),
    ensures
        ({
            let b = step_model(a, EventView::Outcomes(outcomes), elapsed_ns).0;
            let r = b.run.records[i];
            let k = running_before(a.run.decisions, i);
            &&& b.run.records.len() == a.run.calls.len()
            &&& r.name == a.run.calls[i].name
            &&& r.args == a.run.calls[i].arguments
            &&& match a.run.decisions[i] {
                DecisionView::Allow => r.result == outcomes[k].0 && r.duration_us == outcomes[k].1,
                DecisionView::Refused(s) => r.result == s && r.duration_us == 0,
                DecisionView::Looped(s) => r.result == s && r.duration_us == 0,
            }
        }),
{
    lemma_allowed_counts(a.run.decisions.take(i));
}

/// The time that the calls of a tool took.
pub open spec fn time_of(rs: Seq<RecordView>, name: Seq<char>) -> int
    decreases rs.len(),
{
    if rs.len() == 0 {
        0
    } else {
        time_of(rs.drop_last(), name) + (if rs.last().name == name {
            rs.last().duration_us as int
        } else {
            0
        })
    }
}

/// A tool with a quota is charged the time that its calls took, and no other tool is.
pub proof fn tools_are_charged_the_time_they_took(
    a: AgentView,
    outcomes: Seq<(Seq<char>, u64)>,
    elapsed_ns: u64,
    name: Seq<char>,
)
    requires
        a.limits.quotas.contains_key(name),
    ensures
        ({
            let b = step_model(a, EventView::Outcomes(outcomes), elapsed_ns).0;
            let sum = spent_of(a.run.ledger.spent, name).duration_us + time_of(
                b.run.records,
                name,
            );
            &&& spent_of(b.run.ledger.spent, name).duration_us == if sum <= u64::MAX {
                sum
            } else {
                u64::MAX as int
            }
            &&& spent_of(b.run.ledger.spent, name).calls == spent_of(
                a.run.ledger.spent,
                name,
            ).calls
        }),
{
    let b = step_model(a, EventView::Outcomes(outcomes), elapsed_ns).0;
    lemma_charged(a.limits.quotas, a.run.ledger.spent, b.run.records, name);
}

proof fn lemma_charged(
    quotas: Map<Seq<char>, ToolQuota>,
    spent: Map<Seq<char>, QuotaUsage>,
    rs: Seq<RecordView>,
    name: Seq<char>,
)
    requires
        quotas.contains_key(name),
    ensures
        ({
            let sum = spent_of(spent, name).duration_us + time_of(rs, name);
            &&& time_of(rs, name) >= 0
            &&& spent_of(charge(quotas, spent, rs), name).duration_us == if sum <= u64::MAX {
                sum
            } else {
                u64::MAX as int
            }
            &&& spent_of(charge(quotas, spent, rs), name).calls == spent_of(spent, name).calls
        }),
    decreases rs.len(),
{
    if rs.len() > 0 {
        lemma_charged(quotas, spent, rs.drop_last(), name);
    }
}

/// The answer to a call holds its result, cut to the cap of the tool where it has one
/// and then to the caps of the agent, in an envelope with the name and the identifier
/// of the call.
pub proof fn answers_hold_the_results(
    a: AgentView,
    outcomes: Seq<(Seq<char>, u64)>,
    elapsed_ns: u64,
    i: int,
)
    requires
        0 <= i < a.run.calls.len(),
    ensures
        ({
            let b = step_model(a, EventView::Outcomes(outcomes), elapsed_ns).0;
            let call = a.run.calls[i];
            let result = b.run.records[i].result;
            let cut = if a.limits.quotas.contains_key(call.name)
                && a.limits.quotas[call.name].max_result_bytes is Some {
                clip(result, a.limits.quotas[call.name].max_result_bytes->0 as nat)
            } else {
                result
            };
            b.messages[a.messages.len() + i].content == Some(
                framed(
                    call.name,
                    call.id,
                    cut,
                    a.limits.max_tool_result_bytes,
                    a.limits.max_tool_output_chars,
                ),
            )
        }),
{
}

/// What a call that ran leaves: its output, or its error or the message of its panic,
/// marked as such. The time of a call that panicked does not count.
pub proof fn a_failure_is_told_as_one(o: ToolOutcome)
    ensures
        match o.ending {
            Ending::Output(s) => outcome_view(o) == (s@, o.duration_us),
            Ending::Failed(e) => outcome_view(o) == ("error: "@ + e@, o.duration_us),
            Ending::Panicked(m) => outcome_view(o) == (
                "error: tool thread panicked: "@ + m@,
                0u64,
            ),
        },
{
}

/// The observer is told how a step ended, with the usage before it, and nothing while
/// it goes on.
pub proof fn the_observer_is_told_the_end(run: RunView, text: Seq<char>)
    ensures
        notices_of(run, ActionView::Done(Ok(text))) == seq![
            NoticeView::Usage(run.usage),
            NoticeView::Ended(text),
        ],
        notices_of(run, ActionView::Done(Err(text))) == seq![
            NoticeView::Usage(run.usage),
            NoticeView::Failed(text),
        ],
        notices_of(run, ActionView::Chat).len() == 0,
        notices_of(run, ActionView::Gate).len() == 0,
        notices_of(run, ActionView::Dispatch).len() == 0,
{
}

/// Why a quota refuses a call: the calls are counted first, then the time.
pub proof fn a_quota_says_what_is_used_up(q: ToolQuota, u: QuotaUsage, name: Seq<char>)
    ensures
        q.max_calls is Some && u.calls >= q.max_calls->0 ==> quota_refusal(q, u, name) == Some(
            "quota exceeded: "@ + name + " reached max "@ + dec(q.max_calls->0 as nat)
                + " calls this step"@,
        ),
        !(q.max_calls is Some && u.calls >= q.max_calls->0) && q.max_duration_us is Some
            && u.duration_us >= q.max_duration_us->0 ==> quota_refusal(q, u, name) == Some(
            "quota exceeded: "@ + name + " reached max "@ + dec(q.max_duration_us->0 as nat)
                + "µs wall time this step"@,
        ),
        quota_refusal(q, u, name) is None <==> !used_up(q, u.calls as int, u.duration_us),
{
}

/// What an error of the deadline says: where it struck, how long the step took and how
/// long it might take, in milliseconds.
pub open spec fn too_late(stage: Seq<char>, elapsed_ns: u64, limit_ns: u64) -> Seq<char> {
    "step deadline exceeded at "@ + stage + ": "@ + (dec((elapsed_ns / 1_000_000) as nat)
        + "ms >= "@ + dec((limit_ns / 1_000_000) as nat) + "ms"@)
}

/// A step that is out of time ends with an error that says so, before a turn and before
/// its calls are decided on.
pub proof fn the_deadline_is_told(
    a: AgentView,
    input: Seq<char>,
    m: MessageView,
    elapsed_ns: u64,
)
    requires
        out_of_time(a, elapsed_ns),
        m.tool_calls is Some,
        m.tool_calls->0.len() > 0,
    ensures
        ({
            let limit = a.limits.max_step_duration->0;
            let begun = step_model(a, EventView::Begin(input), elapsed_ns).1;
            let replied = step_model(a, EventView::Reply(Ok(m)), elapsed_ns).1;
            &&& a.limits.max_steps > 0 ==> begun == ActionView::Done(
                Err::<Seq<char>, Seq<char>>(too_late("turn_start"@, elapsed_ns, limit)),
            )
            &&& a.limits.max_steps == 0 ==> begun == ActionView::Done(
                Err::<Seq<char>, Seq<char>>("max steps exceeded"@),
            )
            &&& replied == ActionView::Done(
                Err::<Seq<char>, Seq<char>>(too_late("pre_dispatch"@, elapsed_ns, limit)),
            )
        }),
{
}

} // verus!
