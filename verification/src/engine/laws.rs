//! How a task goes on after every event, mode by mode.
use vstd::prelude::*;
use crate::engine::run::{
    awaited, class_of, class_of_lower, engine_model, engine_wf, has_room, recovered, round_model,
    EngineActionView, EngineEventView, EngineRunView, Wait,
};
use crate::engine::observer::policy;
use crate::engine::task::{
    sat_pow2, Backoff, ErrorClass, ExecutionMode, RecoveryStep, StepFailureAction, Task,
    TerminalReason,
};
use crate::message::MessageView;
use crate::search::{has, lowercase};
use crate::text::clip;

verus! {

/// The failed attempts in a row that got nowhere, the one that just failed included:
/// one gets nowhere that used fewer credits than would count as progress.
pub open spec fn idle_attempts(task: Task, run: EngineRunView, tool_credits: u64) -> int {
    let all = (run.state.step_credits + tool_credits) % 0x1_0000_0000_0000_0000;
    if all - run.credits_before < task.budget.diminishing_returns_min_progress {
        run.low_progress + 1
    } else {
        0
    }
}

/// Why an event makes the current piece of work fail, if it does.
pub open spec fn failing(task: Task, run: EngineRunView, event: EngineEventView) -> Option<
    TerminalReason,
> {
    match event {
        EngineEventView::Checked { ttl_expired, budget_exhausted, tool_credits } => if run.wait
            != Wait::Attempt {
            None
        } else if ttl_expired {
            Some(TerminalReason::TtlExpired)
        } else if budget_exhausted {
            Some(TerminalReason::BudgetExhausted)
        } else {
            None
        },
        EngineEventView::Stepped { result, agent_lost, tool_credits } => match result {
            Ok(_) => None,
            Err(error) => {
                let idle = idle_attempts(task, run, tool_credits);
                if !task.retry.retryable_errors@.contains(class_of(error)) {
                    Some(TerminalReason::ModelError)
                } else if idle > 0 && idle >= task.budget.diminishing_returns_window {
                    Some(TerminalReason::DiminishingReturns)
                } else if agent_lost {
                    Some(TerminalReason::MaxRetries)
                } else {
                    None
                }
            },
        },
        EngineEventView::Continued => if run.wait == Wait::Recovery {
            Some(TerminalReason::MaxRetries)
        } else {
            None
        },
        EngineEventView::Shutdown => if run.wait == Wait::Backoff {
            Some(TerminalReason::Aborted)
        } else {
            None
        },
    }
}

/// The agent is not there any more after an event.
pub open spec fn lost(run: EngineRunView, event: EngineEventView) -> bool {
    match event {
        EngineEventView::Stepped { result, agent_lost, tool_credits } => agent_lost,
        _ => run.agent_lost,
    }
}

/// The run is over for a reason, and its result holds its counters.
pub open spec fn over(
    next: EngineRunView,
    action: EngineActionView,
    reason: TerminalReason,
) -> bool {
    &&& next.wait == Wait::Over
    &&& action is Finish
    &&& action->Finish_0.reason == reason
    &&& action->Finish_0.tasks_completed == next.state.tasks_completed
    &&& action->Finish_0.tasks_failed == next.state.tasks_failed
    &&& action->Finish_0.total_attempts == next.state.total_attempts
    &&& action->Finish_0.credits_consumed == (next.state.step_credits + next.state.tool_credits)
        % 0x1_0000_0000_0000_0000
    &&& action->Finish_0.last_result == next.state.last_result
}

/// A new piece of work begins with its first attempt.
pub open spec fn begun(run: EngineRunView, next: EngineRunView, action: EngineActionView) -> bool {
    &&& action is Check
    &&& next.wait == Wait::Attempt
    &&& next.attempt == 0
    &&& next.low_progress == 0
    &&& next.state.total_attempts == run.state.total_attempts + 1
}

/// How a run goes on once a piece of work is done: another one begins while the mode
/// has one, else the run is over.
pub open spec fn goes_on(
    more: bool,
    run: EngineRunView,
    next: EngineRunView,
    action: EngineActionView,
    reason: TerminalReason,
) -> bool {
    if more {
        begun(run, next, action)
    } else {
        over(next, action, reason) && next.state.total_attempts == run.state.total_attempts
    }
}

/// The run rests until the next round of its loop.
pub open spec fn rests(next: EngineRunView, action: EngineActionView, interval_secs: u64) -> bool {
    next.wait == Wait::Rest && action == EngineActionView::Rest(interval_secs)
}

/// A piece of work that fails is counted as failed, once. Without its agent the run
/// is over. With it, a task that runs once is over; one that runs until it succeeds
/// tries again, up to its number of attempts; a loop rests; a pipeline goes on with
/// its next step where failed steps are skipped, and is over otherwise.
pub proof fn failed_work_is_counted_and_the_mode_decides(
    task: Task,
    run: EngineRunView,
    event: EngineEventView,
)
    requires
        engine_wf(task, run),
        has_room(run),
        awaited(run, event),
        failing(task, run, event) is Some,
    ensures
        ({
            let reason = failing(task, run, event)->0;
            let (next, action) = engine_model(task, run, event);
            let done = run.round + 1;
            &&& next.round == done
            &&& next.state.tasks_failed == run.state.tasks_failed + 1
            &&& next.state.tasks_completed == run.state.tasks_completed
            &&& next.state.last_result == run.state.last_result
            &&& next.state.step_credits == run.state.step_credits
            &&& if lost(run, event) {
                over(next, action, reason) && next.state.total_attempts == run.state.total_attempts
            } else {
                match task.mode {
                    ExecutionMode::OneShot => goes_on(false, run, next, action, reason),
                    ExecutionMode::UntilSuccess { max_attempts } => goes_on(
                        done < max_attempts,
                        run,
                        next,
                        action,
                        TerminalReason::MaxRetries,
                    ),
                    ExecutionMode::Loop { interval_secs, max_iterations } => rests(
                        next,
                        action,
                        interval_secs,
                    ) && next.state.total_attempts == run.state.total_attempts,
                    ExecutionMode::Pipeline { steps } => if task.terminal.on_step_failure
                        == StepFailureAction::Skip {
                        goes_on(
                            done < steps@.len(),
                            run,
                            next,
                            action,
                            TerminalReason::PipelineCompleted,
                        )
                    } else {
                        goes_on(false, run, next, action, reason)
                    },
                }
            }
        }),
{
}

/// A piece of work that succeeds is counted as completed, once, and its output is the
/// last result; the attempt is charged. A task that runs once or until it succeeds is
/// completed; a loop rests; a pipeline goes on with its next step.
pub proof fn finished_work_is_counted_and_the_mode_decides(
    task: Task,
    run: EngineRunView,
    output: Seq<char>,
    agent_lost: bool,
    tool_credits: u64,
)
    requires
        engine_wf(task, run),
        has_room(run),
        run.wait == Wait::Running,
    ensures
        ({
            let (next, action) = engine_model(
                task,
                run,
                EngineEventView::Stepped { result: Ok(output), agent_lost, tool_credits },
            );
            let done = run.round + 1;
            &&& next.round == done
            &&& next.state.tasks_completed == run.state.tasks_completed + 1
            &&& next.state.tasks_failed == run.state.tasks_failed
            &&& next.state.last_result == Some(output)
            &&& next.state.tool_credits == tool_credits
            &&& next.state.step_credits == (run.state.step_credits + run.state.credits_per_step)
                % 0x1_0000_0000_0000_0000
            &&& match task.mode {
                ExecutionMode::OneShot => goes_on(
                    false,
                    run,
                    next,
                    action,
                    TerminalReason::Completed,
                ),
                ExecutionMode::UntilSuccess { max_attempts } => goes_on(
                    false,
                    run,
                    next,
                    action,
                    TerminalReason::Completed,
                ),
                ExecutionMode::Loop { interval_secs, max_iterations } => rests(
                    next,
                    action,
                    interval_secs,
                ) && next.state.total_attempts == run.state.total_attempts,
                ExecutionMode::Pipeline { steps } => goes_on(
                    done < steps@.len(),
                    run,
                    next,
                    action,
                    TerminalReason::PipelineCompleted,
                ),
            }
        }),
{
}

/// An error that does not end the piece of work is followed by a pause and another
/// attempt while there are retries, and after the last one by the recovery cascade.
/// Neither counts as work done.
pub proof fn a_passing_error_is_retried_or_recovered_from(
    task: Task,
    run: EngineRunView,
    error: Seq<char>,
    tool_credits: u64,
)
    requires
        engine_wf(task, run),
        has_room(run),
        awaited(
            run,
            EngineEventView::Stepped { result: Err(error), agent_lost: false, tool_credits },
        ),
        failing(
            task,
            run,
            EngineEventView::Stepped { result: Err(error), agent_lost: false, tool_credits },
        ) is None,
    ensures
        ({
            let (next, action) = engine_model(
                task,
                run,
                EngineEventView::Stepped { result: Err(error), agent_lost: false, tool_credits },
            );
            let (again, then) = engine_model(task, next, EngineEventView::Continued);
            &&& next.round == run.round
            &&& next.attempt == run.attempt
            &&& next.low_progress == idle_attempts(task, run, tool_credits)
            &&& next.state.tasks_completed == run.state.tasks_completed
            &&& next.state.tasks_failed == run.state.tasks_failed
            &&& next.state.total_attempts == run.state.total_attempts
            &&& next.state.step_credits == run.state.step_credits
            &&& if run.attempt < task.retry.max_retries {
                &&& next.wait == Wait::Backoff
                &&& action == EngineActionView::Backoff(run.attempt)
                &&& then is Check
                &&& again.wait == Wait::Attempt
                &&& again.attempt == run.attempt + 1
                &&& again.low_progress == next.low_progress
                &&& again.round == run.round
                &&& again.state.total_attempts == run.state.total_attempts + 1
            } else {
                next.wait == Wait::Recovery && action is Recover
            }
        }),
{
}

/// An attempt for which there is time and budget is run; nothing is counted for it.
pub proof fn an_attempt_within_its_means_is_run(task: Task, run: EngineRunView, tool_credits: u64)
    requires
        run.wait == Wait::Attempt,
    ensures
        ({
            let (next, action) = engine_model(
                task,
                run,
                EngineEventView::Checked {
                    ttl_expired: false,
                    budget_exhausted: false,
                    tool_credits,
                },
            );
            &&& action is Step
            &&& next.wait == Wait::Running
            &&& next.credits_before == (run.state.step_credits + tool_credits)
                % 0x1_0000_0000_0000_0000
            &&& next.attempt == run.attempt
            &&& next.low_progress == run.low_progress
            &&& next.round == run.round
            &&& next.agent_lost == run.agent_lost
            &&& next.state.tasks_completed == run.state.tasks_completed
            &&& next.state.tasks_failed == run.state.tasks_failed
            &&& next.state.total_attempts == run.state.total_attempts
        }),
{
}

/// After its rest a loop looks at time and budget, and begins its next round unless
/// one of them is used up or there were as many rounds as there may be.
pub proof fn a_loop_goes_round_until_it_may_not(
    task: Task,
    run: EngineRunView,
    ttl_expired: bool,
    budget_exhausted: bool,
    tool_credits: u64,
)
    requires
        run.wait == Wait::Rest,
        has_room(run),
        task.mode is Loop,
    ensures
        ({
            let (waits, look) = engine_model(task, run, EngineEventView::Continued);
            let (next, action) = engine_model(
                task,
                waits,
                EngineEventView::Checked { ttl_expired, budget_exhausted, tool_credits },
            );
            let max = task.mode->Loop_max_iterations;
            &&& look is Check
            &&& waits.round == run.round
            &&& waits.state == run.state
            &&& next.round == run.round
            &&& next.state.tasks_completed == run.state.tasks_completed
            &&& next.state.tasks_failed == run.state.tasks_failed
            &&& next.state.last_result == run.state.last_result
            &&& if ttl_expired {
                goes_on(false, run, next, action, TerminalReason::TtlExpired)
            } else if budget_exhausted {
                goes_on(false, run, next, action, TerminalReason::BudgetExhausted)
            } else {
                goes_on(
                    max is None || run.round < max->0,
                    run,
                    next,
                    action,
                    TerminalReason::MaxIterations,
                )
            }
        }),
{
}

/// A run that is asked to stop while it rests is over, with its counters as they are.
pub proof fn a_resting_run_can_be_stopped(task: Task, run: EngineRunView)
    requires
        run.wait == Wait::Rest,
    ensures
        ({
            let (next, action) = engine_model(task, run, EngineEventView::Shutdown);
            over(next, action, TerminalReason::Aborted) && next.state == run.state
        }),
{
}

/// A run begins with a piece of work where its mode has one, and is over at once
/// where it has none.
pub proof fn a_run_begins_where_there_is_work(task: Task, run: EngineRunView)
    requires
        run.round == 0,
        has_room(run),
    ensures
        ({
            let (next, action) = round_model(task, run);
            match task.mode {
                ExecutionMode::OneShot => begun(run, next, action),
                ExecutionMode::UntilSuccess { max_attempts } => goes_on(
                    max_attempts > 0,
                    run,
                    next,
                    action,
                    TerminalReason::MaxRetries,
                ),
                ExecutionMode::Loop { interval_secs, max_iterations } => goes_on(
                    max_iterations is None || max_iterations->0 > 0,
                    run,
                    next,
                    action,
                    TerminalReason::MaxIterations,
                ),
                ExecutionMode::Pipeline { steps } => goes_on(
                    steps@.len() > 0,
                    run,
                    next,
                    action,
                    TerminalReason::PipelineCompleted,
                ),
            }
        }),
{
}

/// Some of the words stands in the text.
pub open spec fn names_any(lower: Seq<char>, words: Seq<Seq<char>>) -> bool {
    exists|w: int, i: int|
        0 <= w < words.len() && 0 <= i && i + (#[trigger] words[w]).len() <= lower.len()
            && #[trigger] lower.subrange(i, i + words[w].len()) == words[w]
}

proof fn lemma_names_three(lower: Seq<char>, a: Seq<char>, b: Seq<char>, c: Seq<char>)
    ensures
        names_any(lower, seq![a, b, c]) <==> has(lower, a) || has(lower, b) || has(lower, c),
{
    let words = seq![a, b, c];
    assert(words[0] == a && words[1] == b && words[2] == c);
    if has(lower, a) {
        let i = choose|i: int| crate::search::at(lower, i, a);
        assert(lower.subrange(i, i + words[0].len()) == words[0]);
    }
    if has(lower, b) {
        let i = choose|i: int| crate::search::at(lower, i, b);
        assert(lower.subrange(i, i + words[1].len()) == words[1]);
    }
    if has(lower, c) {
        let i = choose|i: int| crate::search::at(lower, i, c);
        assert(lower.subrange(i, i + words[2].len()) == words[2]);
    }
    if names_any(lower, words) {
        let (w, i) = choose|w: int, i: int|
            0 <= w < words.len() && 0 <= i && i + (#[trigger] words[w]).len() <= lower.len()
                && #[trigger] lower.subrange(i, i + words[w].len()) == words[w];
        assert(crate::search::at(lower, i, words[w]));
    }
}

proof fn lemma_names_two(lower: Seq<char>, a: Seq<char>, b: Seq<char>)
    ensures
        names_any(lower, seq![a, b]) <==> has(lower, a) || has(lower, b),
{
    let words = seq![a, b];
    let more = seq![a, b, b];
    lemma_names_three(lower, a, b, b);
    assert(words[0] == more[0] && words[1] == more[1] && more[2] == words[1]);
    if names_any(lower, more) {
        let (w, i) = choose|w: int, i: int|
            0 <= w < more.len() && 0 <= i && i + (#[trigger] more[w]).len() <= lower.len()
                && #[trigger] lower.subrange(i, i + more[w].len()) == more[w];
        let v: int = if w == 2 {
            1
        } else {
            w
        };
        assert(lower.subrange(i, i + words[v].len()) == words[v]);
    }
    if names_any(lower, words) {
        let (w, i) = choose|w: int, i: int|
            0 <= w < words.len() && 0 <= i && i + (#[trigger] words[w]).len() <= lower.len()
                && #[trigger] lower.subrange(i, i + words[w].len()) == words[w];
        assert(lower.subrange(i, i + more[w].len()) == more[w]);
    }
}

/// The class of an error is the first one of which a word stands in the lower-cased
/// head of its text.
pub proof fn an_error_is_of_the_first_class_that_it_names(error: Seq<char>)
    ensures
        ({
            let lower = lowercase(clip(error, 256));
            let network = names_any(lower, seq!["timeout"@, "connection"@, "econnreset"@]);
            let rate = names_any(lower, seq!["rate limit"@, "429"@, "529"@]);
            let server = names_any(lower, seq!["500"@, "502"@, "503"@]);
            let context = names_any(lower, seq!["context"@, "too long"@, "413"@]);
            let tool = names_any(lower, seq!["tool"@, "dispatch"@]);
            let class = class_of(error);
            &&& class == ErrorClass::Network <==> network
            &&& class == ErrorClass::RateLimit <==> rate && !network
            &&& class == ErrorClass::ServerError <==> server && !network && !rate
            &&& class == ErrorClass::ContextOverflow <==> context && !network && !rate && !server
            &&& class == ErrorClass::ToolFailure <==> tool && !network && !rate && !server
                && !context
            &&& class == ErrorClass::InferenceError <==> !network && !rate && !server && !context
                && !tool
        }),
{
    let lower = lowercase(clip(error, 256));
    lemma_names_three(lower, "timeout"@, "connection"@, "econnreset"@);
    lemma_names_three(lower, "rate limit"@, "429"@, "529"@);
    lemma_names_three(lower, "500"@, "502"@, "503"@);
    lemma_names_three(lower, "context"@, "too long"@, "413"@);
    lemma_names_two(lower, "tool"@, "dispatch"@);
    assert(class_of(error) == class_of_lower(lower));
}

/// What each measure of the recovery cascade leaves of a conversation: trimming keeps
/// the first message and the newest ones, as many in all as the window holds;
/// compacting keeps the first message; the others keep everything.
pub proof fn recovery_keeps_the_newest_messages(m: Seq<MessageView>, max: nat, step: RecoveryStep)
    requires
        m.len() > 0,
        max > 0,
    ensures
        ({
            let r = recovered(m, max, step);
            match step {
                RecoveryStep::TrimContext => {
                    &&& r.len() == if m.len() > max { max } else { m.len() }
                    &&& r[0] == m[0]
                    &&& r.skip(1) == m.skip(m.len() - r.len() + 1)
                },
                RecoveryStep::Compact => r.len() == 1 && r[0] == m[0],
                _ => r == m,
            }
        }),
{
    let r = recovered(m, max, step);
    if step == RecoveryStep::TrimContext {
        assert(r.skip(1) =~= m.skip(m.len() - r.len() + 1));
    }
}

/// A pause doubles from retry to retry, from its base up to its cap; a fixed one stays
/// as it is.
pub proof fn pauses_double_up_to_their_cap(base_ms: u64, cap_ms: u64, jitter: bool, attempt: u32)
    requires
        attempt < u32::MAX,
    ensures
        ({
            let b = Backoff::Exponential { base_ms, cap_ms, jitter };
            let d = b.plain(attempt);
            let next = b.plain((attempt + 1) as u32);
            &&& b.plain(0) == if base_ms <= cap_ms {
                base_ms
            } else {
                cap_ms
            }
            &&& next == if 2 * d <= cap_ms {
                2 * d
            } else {
                cap_ms as int
            }
        }),
        (Backoff::Fixed { delay_ms: base_ms }).plain(attempt) == base_ms,
{
    let p = sat_pow2(attempt as nat);
    let q = sat_pow2((attempt + 1) as nat);
    assert(sat_pow2(0) == 1);
    assert(base_ms * 1 == base_ms);
    if attempt < 63 {
        assert(q == 2 * p);
        assert(base_ms * q == 2 * (base_ms * p)) by (nonlinear_arith)
            requires
                q == 2 * p,
        ;
    } else {
        lemma_last_power(attempt as nat);
        assert(q == u64::MAX);
        if base_ms == 0 {
            assert(base_ms * p == 0 && base_ms * q == 0) by (nonlinear_arith)
                requires
                    base_ms == 0,
            ;
        } else {
            assert(base_ms * p >= p && base_ms * q >= q) by (nonlinear_arith)
                requires
                    base_ms >= 1,
                    p >= 0,
                    q >= 0,
            ;
        }
    }
}

/// From the sixty-third on, twice a power reaches the largest number.
proof fn lemma_last_power(n: nat)
    requires
        n >= 63,
    ensures
        2 * sat_pow2(n) >= u64::MAX,
{
    if n == 63 {
        lemma_powers(63);
        vstd::arithmetic::power2::lemma2_to64_rest();
    }
}

proof fn lemma_powers(n: nat)
    requires
        n < 64,
    ensures
        sat_pow2(n) == vstd::arithmetic::power2::pow2(n),
    decreases n,
{
    if n == 0 {
        vstd::arithmetic::power2::lemma2_to64();
    } else {
        lemma_powers((n - 1) as nat);
        vstd::arithmetic::power2::lemma_pow2_unfold(n);
    }
}

/// Jitter adds to a pause by the random number, less than a quarter of the pause, and
/// every such amount can come; without jitter nothing is added.
pub proof fn jitter_goes_by_the_random_number(
    base_ms: u64,
    cap_ms: u64,
    attempt: u32,
    random: u64,
)
    ensures
        (Backoff::Exponential { base_ms, cap_ms, jitter: false }).with_jitter(attempt, random) == (
        Backoff::Exponential { base_ms, cap_ms, jitter: false }).plain(attempt),
        (Backoff::Fixed { delay_ms: base_ms }).with_jitter(attempt, random) == base_ms,
        ({
            let b = Backoff::Exponential { base_ms, cap_ms, jitter: true };
            let d = b.plain(attempt);
            &&& 4 <= d && random < d / 4 ==> b.with_jitter(attempt, random) == d + random
            &&& 4 <= d && random >= d / 4 ==> b.with_jitter(attempt, random) < d + d / 4
            &&& 0 <= d < 4 ==> b.with_jitter(attempt, random) == d
        }),
{
    let d = (Backoff::Exponential { base_ms, cap_ms, jitter: true }).plain(attempt);
    if 4 <= d && random < d / 4 {
        vstd::arithmetic::div_mod::lemma_small_mod(random as nat, (d / 4) as nat);
    }
    if 4 <= d {
        vstd::arithmetic::div_mod::lemma_mod_bound(random as int, d / 4);
    }
}

/// A tool may be called when it is not denied, and either no tools are singled out or it
/// is one of them.
pub proof fn a_tool_may_run_unless_a_policy_forbids_it(
    permitted: Seq<Seq<char>>,
    denied: Seq<Seq<char>>,
    name: Seq<char>,
)
    ensures
        policy(permitted, denied, name) is None <==> (forall|i: int|
            0 <= i < denied.len() ==> #[trigger] denied[i] != name) && (permitted.len() == 0
            || exists|i: int| 0 <= i < permitted.len() && #[trigger] permitted[i] == name),
{
}

/// Whatever happens, the allotted budget and the price of an attempt stay as they are,
/// the tools' credits are those that were last read, and an agent is gone once an
/// attempt has lost it.
pub proof fn settings_stay_and_credits_are_read(
    task: Task,
    run: EngineRunView,
    event: EngineEventView,
)
    requires
        awaited(run, event),
    ensures
        ({
            let next = engine_model(task, run, event).0;
            &&& next.state.budget_allocated == run.state.budget_allocated
            &&& next.state.credits_per_step == run.state.credits_per_step
            &&& next.agent_lost == lost(run, event)
            &&& next.state.tool_credits == match event {
                EngineEventView::Checked { ttl_expired, budget_exhausted, tool_credits } =>
                    tool_credits,
                EngineEventView::Stepped { result, agent_lost, tool_credits } => tool_credits,
                _ => run.state.tool_credits,
            }
        }),
{
}

} // verus!
