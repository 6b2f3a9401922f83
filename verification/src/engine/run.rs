//! Task execution as a state machine.
//!
//! [`EngineRun`] decides what a task does next: another attempt, a pause, the
//! recovery cascade, or the end. Whoever drives it runs the agent, tells the
//! time and sleeps.
use vstd::prelude::*;
use vstd::string::*;
use crate::agent::Agent;
use crate::decimal::{dec, decimal};
use crate::engine::task::{
    ErrorClass, ExecutionMode, RecoveryStep, StepFailureAction, Task, TerminalReason,
};
use crate::message::{opt_text, copy_opt, MessageView};
use crate::search::{contains, has, lowercase, to_lower};
use crate::text::{cat2, cat3, clip, clip_text, copy};

verus! {

/// The result of a whole run.
#[derive(Debug)]
pub struct EngineResult {
    pub reason: TerminalReason,
    pub tasks_completed: u32,
    pub tasks_failed: u32,
    pub total_attempts: u32,
    pub credits_consumed: u64,
    pub last_result: Option<String>,
}

/// The content of an [`EngineResult`].
pub struct ResultView {
    pub reason: TerminalReason,
    pub tasks_completed: u32,
    pub tasks_failed: u32,
    pub total_attempts: u32,
    pub credits_consumed: u64,
    pub last_result: Option<Seq<char>>,
}

impl View for EngineResult {
    type V = ResultView;

    open spec fn view(&self) -> ResultView {
        ResultView {
            reason: self.reason,
            tasks_completed: self.tasks_completed,
            tasks_failed: self.tasks_failed,
            total_attempts: self.total_attempts,
            credits_consumed: self.credits_consumed,
            last_result: opt_text(self.last_result),
        }
    }
}

/// Counters of a run.
pub struct EngineState {
    pub budget_allocated: u64,
    /// Credits charged for every attempt that succeeds.
    pub credits_per_step: u64,
    /// Credits charged for attempts.
    pub step_credits: u64,
    /// Credits charged for tool time, as last read.
    pub tool_credits: u64,
    pub tasks_completed: u32,
    pub tasks_failed: u32,
    pub total_attempts: u32,
    pub last_result: Option<String>,
}

/// The content of an [`EngineState`].
pub struct StateView {
    pub budget_allocated: u64,
    pub credits_per_step: u64,
    pub step_credits: u64,
    pub tool_credits: u64,
    pub tasks_completed: u32,
    pub tasks_failed: u32,
    pub total_attempts: u32,
    pub last_result: Option<Seq<char>>,
}

impl View for EngineState {
    type V = StateView;

    open spec fn view(&self) -> StateView {
        StateView {
            budget_allocated: self.budget_allocated,
            credits_per_step: self.credits_per_step,
            step_credits: self.step_credits,
            tool_credits: self.tool_credits,
            tasks_completed: self.tasks_completed,
            tasks_failed: self.tasks_failed,
            total_attempts: self.total_attempts,
            last_result: opt_text(self.last_result),
        }
    }
}

/// A sum of counters, which wrap at 64 bits.
pub open spec fn wrapped_sum(a: u64, b: u64) -> u64 {
    ((a + b) % 0x1_0000_0000_0000_0000) as u64
}

impl StateView {
    pub open spec fn consumed(self) -> u64 {
        wrapped_sum(self.step_credits, self.tool_credits)
    }

    pub open spec fn result(self, reason: TerminalReason) -> ResultView {
        ResultView {
            reason,
            tasks_completed: self.tasks_completed,
            tasks_failed: self.tasks_failed,
            total_attempts: self.total_attempts,
            credits_consumed: self.consumed(),
            last_result: self.last_result,
        }
    }
}

fn add_wrapping(a: u64, b: u64) -> (r: u64)
    ensures
        r == wrapped_sum(a, b),
{
    a.wrapping_add(b)
}

impl EngineState {
    pub fn new(budget_allocated: u64, credits_per_step: u64) -> (r: EngineState)
        ensures
            r@ == (StateView {
                budget_allocated,
                credits_per_step,
                step_credits: 0,
                tool_credits: 0,
                tasks_completed: 0,
                tasks_failed: 0,
                total_attempts: 0,
                last_result: None,
            }),
    {
        EngineState {
            budget_allocated,
            credits_per_step,
            step_credits: 0,
            tool_credits: 0,
            tasks_completed: 0,
            tasks_failed: 0,
            total_attempts: 0,
            last_result: None,
        }
    }

    /// All credits used up so far.
    pub fn credits_consumed(&self) -> (r: u64)
        ensures
            r == self@.consumed(),
    {
        add_wrapping(self.step_credits, self.tool_credits)
    }

    /// The result of a run that ends for the given reason.
    pub fn into_result(&self, reason: TerminalReason) -> (r: EngineResult)
        ensures
            r@ == self@.result(reason),
    {
        EngineResult {
            reason,
            tasks_completed: self.tasks_completed,
            tasks_failed: self.tasks_failed,
            total_attempts: self.total_attempts,
            credits_consumed: self.credits_consumed(),
            last_result: copy_opt(&self.last_result),
        }
    }
}

/// What the machine waits for.
#[derive(Clone, Copy, Debug, PartialEq, Eq, Structural)]
pub enum Wait {
    /// The checks before an attempt.
    Attempt,
    /// The end of an attempt.
    Running,
    /// The pause before a retry.
    Backoff,
    /// The recovery cascade.
    Recovery,
    /// The pause between two rounds of a loop.
    Rest,
    /// The checks before the next round of a loop.
    Round,
    /// Nothing: the run is over.
    Over,
}

/// What to do next.
#[derive(Debug)]
pub enum EngineAction {
    /// Read the clock, the budget and the tool credits.
    Check,
    /// Run the agent on the current instructions.
    Step,
    /// Pause before the retry after attempt number so-and-so.
    Backoff(u32),
    /// Apply the recovery cascade to the agent.
    Recover,
    /// Pause for so many seconds.
    Rest(u64),
    /// The run is over.
    Finish(EngineResult),
}

/// What happened.
#[derive(Debug)]
pub enum EngineEvent {
    /// Whether the time to live is over and the budget used up, and what the
    /// tools have used up.
    Checked { ttl_expired: bool, budget_exhausted: bool, tool_credits: u64 },
    /// How the attempt ended, and whether the agent was lost to it.
    Stepped { result: Result<String, String>, agent_lost: bool, tool_credits: u64 },
    /// The pause or the recovery is over.
    Continued,
    /// The run was asked to stop during a pause.
    Shutdown,
}

/// The content of an [`EngineAction`].
pub enum EngineActionView {
    Check,
    Step,
    Backoff(u32),
    Recover,
    Rest(u64),
    Finish(ResultView),
}

impl View for EngineAction {
    type V = EngineActionView;

    open spec fn view(&self) -> EngineActionView {
        match self {
            EngineAction::Check => EngineActionView::Check,
            EngineAction::Step => EngineActionView::Step,
            EngineAction::Backoff(n) => EngineActionView::Backoff(*n),
            EngineAction::Recover => EngineActionView::Recover,
            EngineAction::Rest(n) => EngineActionView::Rest(*n),
            EngineAction::Finish(r) => EngineActionView::Finish(r@),
        }
    }
}

/// Progress of a run.
pub struct EngineRun {
    pub wait: Wait,
    /// Attempts of the current piece of work that were finished.
    pub attempt: u32,
    /// Failed attempts in a row that got nowhere.
    pub low_progress: u32,
    /// Credits used up before the current attempt.
    pub credits_before: u64,
    /// Pieces of work that were finished.
    pub round: u32,
    /// Whether the agent was lost.
    pub agent_lost: bool,
    pub state: EngineState,
}

/// The content of an [`EngineRun`].
pub struct EngineRunView {
    pub wait: Wait,
    pub attempt: u32,
    pub low_progress: u32,
    pub credits_before: u64,
    pub round: u32,
    pub agent_lost: bool,
    pub state: StateView,
}

impl View for EngineRun {
    type V = EngineRunView;

    open spec fn view(&self) -> EngineRunView {
        EngineRunView {
            wait: self.wait,
            attempt: self.attempt,
            low_progress: self.low_progress,
            credits_before: self.credits_before,
            round: self.round,
            agent_lost: self.agent_lost,
            state: self.state@,
        }
    }
}

pub type Next = (EngineRunView, EngineActionView);

/// How many attempts an error text is worth is decided by its class, which is
/// read off the lower-cased text.
pub open spec fn class_of_lower(lower: Seq<char>) -> ErrorClass {
    if has(lower, "timeout"@) || has(lower, "connection"@) || has(lower, "econnreset"@) {
        ErrorClass::Network
    } else if has(lower, "rate limit"@) || has(lower, "429"@) || has(lower, "529"@) {
        ErrorClass::RateLimit
    } else if has(lower, "500"@) || has(lower, "502"@) || has(lower, "503"@) {
        ErrorClass::ServerError
    } else if has(lower, "context"@) || has(lower, "too long"@) || has(lower, "413"@) {
        ErrorClass::ContextOverflow
    } else if has(lower, "tool"@) || has(lower, "dispatch"@) {
        ErrorClass::ToolFailure
    } else {
        ErrorClass::InferenceError
    }
}

/// Only the first 256 bytes of an error text count.
pub open spec fn class_of(error: Seq<char>) -> ErrorClass {
    class_of_lower(lowercase(clip(error, 256)))
}

/// The class of an error text in lower case.
pub fn classify_lower(lower: &str) -> (r: ErrorClass)
    ensures
        r == class_of_lower(lower@),
{
    if contains(lower, "timeout") || contains(lower, "connection") || contains(lower, "econnreset") {
        ErrorClass::Network
    } else if contains(lower, "rate limit") || contains(lower, "429") || contains(lower, "529") {
        ErrorClass::RateLimit
    } else if contains(lower, "500") || contains(lower, "502") || contains(lower, "503") {
        ErrorClass::ServerError
    } else if contains(lower, "context") || contains(lower, "too long") || contains(lower, "413") {
        ErrorClass::ContextOverflow
    } else if contains(lower, "tool") || contains(lower, "dispatch") {
        ErrorClass::ToolFailure
    } else {
        ErrorClass::InferenceError
    }
}

/// The class of an error, read off the first 256 bytes of its text.
pub fn classify_error(error: &str) -> (r: ErrorClass)
    ensures
        r == class_of(error@),
{
    let head = clip_text(error, 256);
    let lower = to_lower(head.as_str());
    classify_lower(lower.as_str())
}

/// What follows the first 256 bytes of an error text does not change its class.
pub proof fn the_tail_of_an_error_does_not_count(error: Seq<char>, tail: Seq<char>)
    requires
        clip(error, 256).len() < error.len(),
    ensures
        class_of(error + tail) == class_of(error),
{
    crate::text::clip_is_longest_prefix(error, 256);
    let k = clip(error, 256).len() as int;
    let whole = error + tail;
    assert(whole.take(k) =~= error.take(k));
    assert(whole.take(k + 1) =~= error.take(k + 1));
    crate::text::lemma_fit_unique(whole, 256, k);
    assert(clip(whole, 256) =~= clip(error, 256));
}

pub open spec fn finish_with(run: EngineRunView, reason: TerminalReason) -> Next {
    (
        EngineRunView { wait: Wait::Over, ..run },
        EngineActionView::Finish(run.state.result(reason)),
    )
}

/// One more attempt.
pub open spec fn attempt_model(run: EngineRunView) -> Next {
    (
        EngineRunView {
            wait: Wait::Attempt,
            state: StateView {
                total_attempts: (run.state.total_attempts + 1) as u32,
                ..run.state
            },
            ..run
        },
        EngineActionView::Check,
    )
}

/// The next piece of work, if the mode has another one.
pub open spec fn round_model(task: Task, run: EngineRunView) -> Next {
    let fresh = EngineRunView { attempt: 0, low_progress: 0, ..run };
    match task.mode {
        ExecutionMode::OneShot => attempt_model(fresh),
        ExecutionMode::UntilSuccess { max_attempts } => if run.round < max_attempts {
            attempt_model(fresh)
        } else {
            finish_with(run, TerminalReason::MaxRetries)
        },
        ExecutionMode::Loop { interval_secs, max_iterations } => if max_iterations is Some
            && run.round >= max_iterations->0 {
            finish_with(run, TerminalReason::MaxIterations)
        } else {
            attempt_model(fresh)
        },
        ExecutionMode::Pipeline { steps } => if run.round < steps@.len() {
            attempt_model(fresh)
        } else {
            finish_with(run, TerminalReason::PipelineCompleted)
        },
    }
}

/// A piece of work succeeded.
pub open spec fn success_model(task: Task, run: EngineRunView, output: Seq<char>) -> Next {
    let done = EngineRunView {
        round: (run.round + 1) as u32,
        state: StateView {
            tasks_completed: (run.state.tasks_completed + 1) as u32,
            last_result: Some(output),
            ..run.state
        },
        ..run
    };
    match task.mode {
        ExecutionMode::OneShot => finish_with(done, TerminalReason::Completed),
        ExecutionMode::UntilSuccess { max_attempts } => finish_with(
            done,
            TerminalReason::Completed,
        ),
        ExecutionMode::Loop { interval_secs, max_iterations } => (
            EngineRunView { wait: Wait::Rest, ..done },
            EngineActionView::Rest(interval_secs),
        ),
        ExecutionMode::Pipeline { steps } => round_model(task, done),
    }
}

/// A piece of work failed.
pub open spec fn failure_model(task: Task, run: EngineRunView, reason: TerminalReason) -> Next {
    let done = EngineRunView {
        round: (run.round + 1) as u32,
        state: StateView { tasks_failed: (run.state.tasks_failed + 1) as u32, ..run.state },
        ..run
    };
    if run.agent_lost {
        finish_with(done, reason)
    } else {
        match task.mode {
            ExecutionMode::OneShot => finish_with(done, reason),
            ExecutionMode::UntilSuccess { max_attempts } => round_model(task, done),
            ExecutionMode::Loop { interval_secs, max_iterations } => (
                EngineRunView { wait: Wait::Rest, ..done },
                EngineActionView::Rest(interval_secs),
            ),
            ExecutionMode::Pipeline { steps } => if task.terminal.on_step_failure
                == StepFailureAction::Skip {
                round_model(task, done)
            } else {
                finish_with(done, reason)
            },
        }
    }
}

/// An attempt failed with an error.
pub open spec fn error_model(task: Task, run: EngineRunView, error: Seq<char>) -> Next {
    let used = run.state.consumed() - run.credits_before;
    let low = if used < task.budget.diminishing_returns_min_progress {
        run.low_progress + 1
    } else {
        0
    };
    if !task.retry.retryable_errors@.contains(class_of(error)) {
        failure_model(task, run, TerminalReason::ModelError)
    } else if low > 0 && low >= task.budget.diminishing_returns_window {
        failure_model(
            task,
            EngineRunView { low_progress: low as u32, ..run },
            TerminalReason::DiminishingReturns,
        )
    } else {
        let next = EngineRunView { low_progress: low as u32, ..run };
        if run.agent_lost {
            failure_model(task, next, TerminalReason::MaxRetries)
        } else if run.attempt == task.retry.max_retries {
            (EngineRunView { wait: Wait::Recovery, ..next }, EngineActionView::Recover)
        } else {
            (
                EngineRunView { wait: Wait::Backoff, ..next },
                EngineActionView::Backoff(run.attempt),
            )
        }
    }
}

/// The content of an [`EngineEvent`].
pub enum EngineEventView {
    Checked { ttl_expired: bool, budget_exhausted: bool, tool_credits: u64 },
    Stepped { result: Result<Seq<char>, Seq<char>>, agent_lost: bool, tool_credits: u64 },
    Continued,
    Shutdown,
}

impl View for EngineEvent {
    type V = EngineEventView;

    open spec fn view(&self) -> EngineEventView {
        match self {
            EngineEvent::Checked { ttl_expired, budget_exhausted, tool_credits } =>
                EngineEventView::Checked {
                ttl_expired: *ttl_expired,
                budget_exhausted: *budget_exhausted,
                tool_credits: *tool_credits,
            },
            EngineEvent::Stepped { result, agent_lost, tool_credits } => EngineEventView::Stepped {
                result: crate::tool::answer_view(*result),
                agent_lost: *agent_lost,
                tool_credits: *tool_credits,
            },
            EngineEvent::Continued => EngineEventView::Continued,
            EngineEvent::Shutdown => EngineEventView::Shutdown,
        }
    }
}

/// One transition of the machine.
pub open spec fn engine_model(task: Task, run: EngineRunView, event: EngineEventView) -> Next {
    match event {
        EngineEventView::Checked { ttl_expired, budget_exhausted, tool_credits } => {
            let st = StateView { tool_credits, ..run.state };
            let seen = EngineRunView { state: st, ..run };
            if run.wait == Wait::Attempt {
                let next = EngineRunView { credits_before: st.consumed(), ..seen };
                if ttl_expired {
                    failure_model(task, next, TerminalReason::TtlExpired)
                } else if budget_exhausted {
                    failure_model(task, next, TerminalReason::BudgetExhausted)
                } else {
                    (EngineRunView { wait: Wait::Running, ..next }, EngineActionView::Step)
                }
            } else {
                if ttl_expired {
                    finish_with(seen, TerminalReason::TtlExpired)
                } else if budget_exhausted {
                    finish_with(seen, TerminalReason::BudgetExhausted)
                } else {
                    round_model(task, seen)
                }
            }
        },
        EngineEventView::Stepped { result, agent_lost, tool_credits } => {
            let st = StateView { tool_credits, ..run.state };
            match result {
                Ok(output) => success_model(
                    task,
                    EngineRunView {
                        agent_lost,
                        state: StateView {
                            step_credits: wrapped_sum(st.step_credits, st.credits_per_step),
                            ..st
                        },
                        ..run
                    },
                    output,
                ),
                Err(error) => error_model(
                    task,
                    EngineRunView { agent_lost, state: st, ..run },
                    error,
                ),
            }
        },
        EngineEventView::Continued => if run.wait == Wait::Backoff {
            attempt_model(EngineRunView { attempt: (run.attempt + 1) as u32, ..run })
        } else if run.wait == Wait::Recovery {
            failure_model(task, run, TerminalReason::MaxRetries)
        } else {
            (EngineRunView { wait: Wait::Round, ..run }, EngineActionView::Check)
        },
        EngineEventView::Shutdown => if run.wait == Wait::Backoff {
            failure_model(task, run, TerminalReason::Aborted)
        } else {
            finish_with(run, TerminalReason::Aborted)
        },
    }
}

/// The event is one that the machine waits for; credits do not decrease during
/// an attempt.
pub open spec fn awaited(run: EngineRunView, event: EngineEventView) -> bool {
    match event {
        EngineEventView::Checked { .. } => run.wait == Wait::Attempt || run.wait == Wait::Round,
        EngineEventView::Stepped { result, agent_lost, tool_credits } => run.wait == Wait::Running
            && wrapped_sum(run.state.step_credits, tool_credits) >= run.credits_before,
        EngineEventView::Continued => run.wait == Wait::Backoff || run.wait == Wait::Recovery
            || run.wait == Wait::Rest,
        EngineEventView::Shutdown => run.wait == Wait::Backoff || run.wait == Wait::Rest,
    }
}

/// The counters can take one more.
pub open spec fn has_room(run: EngineRunView) -> bool {
    &&& run.round < u32::MAX
    &&& run.state.total_attempts < u32::MAX
    &&& run.state.tasks_completed < u32::MAX
    &&& run.state.tasks_failed < u32::MAX
}

/// Every attempt is one of those allowed, and every finished piece of work is
/// counted once, as a success or a failure.
pub open spec fn engine_wf(task: Task, run: EngineRunView) -> bool {
    &&& run.attempt <= task.retry.max_retries
    &&& (run.wait == Wait::Attempt || run.wait == Wait::Running || run.wait == Wait::Backoff
        || run.wait == Wait::Recovery) ==> run.low_progress == 0 || run.low_progress
        < task.budget.diminishing_returns_window
    &&& run.wait == Wait::Backoff ==> run.attempt < task.retry.max_retries
    &&& run.state.tasks_completed + run.state.tasks_failed == run.round
}

fn class_listed(v: &Vec<ErrorClass>, c: ErrorClass) -> (r: bool)
    ensures
        r == v@.contains(c),
{
    let n: usize = v.len();
    let mut i: usize = 0;
    while i < n
        invariant
            i <= n,
            n == v@.len(),
            forall|j: int| 0 <= j < i ==> v@[j] != c,
        decreases n - i,
    {
        if v[i] == c {
            return true;
        }
        i += 1;
    }
    false
}

impl EngineRun {
    fn finish(&mut self, reason: TerminalReason) -> (a: EngineAction)
        ensures
            (final(self)@, a@) == finish_with(old(self)@, reason),
    {
        self.wait = Wait::Over;
        EngineAction::Finish(self.state.into_result(reason))
    }

    fn start_attempt(&mut self) -> (a: EngineAction)
        requires
            old(self).state.total_attempts < u32::MAX,
        ensures
            (final(self)@, a@) == attempt_model(old(self)@),
    {
        self.state.total_attempts = self.state.total_attempts + 1;
        self.wait = Wait::Attempt;
        EngineAction::Check
    }

    fn start_round(&mut self, task: &Task) -> (a: EngineAction)
        requires
            old(self).state.total_attempts < u32::MAX,
        ensures
            (final(self)@, a@) == round_model(*task, old(self)@),
    {
        let over: Option<TerminalReason> = match &task.mode {
            ExecutionMode::OneShot => None,
            ExecutionMode::UntilSuccess { max_attempts } => if self.round < *max_attempts {
                None
            } else {
                Some(TerminalReason::MaxRetries)
            },
            ExecutionMode::Loop { interval_secs, max_iterations } => match max_iterations {
                Some(max) => if self.round >= *max {
                    Some(TerminalReason::MaxIterations)
                } else {
                    None
                },
                None => None,
            },
            ExecutionMode::Pipeline { steps } => if (self.round as usize) < steps.len() {
                None
            } else {
                Some(TerminalReason::PipelineCompleted)
            },
        };
        match over {
            Some(reason) => self.finish(reason),
            None => {
                self.attempt = 0;
                self.low_progress = 0;
                self.start_attempt()
            },
        }
    }

    fn succeed(&mut self, task: &Task, output: String) -> (a: EngineAction)
        requires
            has_room(old(self)@),
        ensures
            (final(self)@, a@) == success_model(*task, old(self)@, output@),
    {
        self.round = self.round + 1;
        self.state.tasks_completed = self.state.tasks_completed + 1;
        self.state.last_result = Some(output);
        match &task.mode {
            ExecutionMode::OneShot => self.finish(TerminalReason::Completed),
            ExecutionMode::UntilSuccess { max_attempts } => self.finish(TerminalReason::Completed),
            ExecutionMode::Loop { interval_secs, max_iterations } => {
                self.wait = Wait::Rest;
                EngineAction::Rest(*interval_secs)
            },
            ExecutionMode::Pipeline { steps } => self.start_round(task),
        }
    }

    fn fail(&mut self, task: &Task, reason: TerminalReason) -> (a: EngineAction)
        requires
            has_room(old(self)@),
        ensures
            (final(self)@, a@) == failure_model(*task, old(self)@, reason),
    {
        self.round = self.round + 1;
        self.state.tasks_failed = self.state.tasks_failed + 1;
        if self.agent_lost {
            return self.finish(reason);
        }
        match &task.mode {
            ExecutionMode::OneShot => self.finish(reason),
            ExecutionMode::UntilSuccess { max_attempts } => self.start_round(task),
            ExecutionMode::Loop { interval_secs, max_iterations } => {
                self.wait = Wait::Rest;
                EngineAction::Rest(*interval_secs)
            },
            ExecutionMode::Pipeline { steps } => if task.terminal.on_step_failure
                == StepFailureAction::Skip {
                self.start_round(task)
            } else {
                self.finish(reason)
            },
        }
    }

    fn take_error(&mut self, task: &Task, error: &str) -> (a: EngineAction)
        requires
            has_room(old(self)@),
            engine_wf(*task, old(self)@),
            old(self).wait == Wait::Running,
            old(self)@.state.consumed() >= old(self).credits_before,
        ensures
            (final(self)@, a@) == error_model(*task, old(self)@, error@),
    {
        let used: u64 = self.state.credits_consumed() - self.credits_before;
        let class = classify_error(error);
        if !class_listed(&task.retry.retryable_errors, class) {
            return self.fail(task, TerminalReason::ModelError);
        }
        if used < task.budget.diminishing_returns_min_progress {
            self.low_progress = self.low_progress + 1;
            if self.low_progress >= task.budget.diminishing_returns_window {
                return self.fail(task, TerminalReason::DiminishingReturns);
            }
        } else {
            self.low_progress = 0;
        }
        if self.agent_lost {
            self.fail(task, TerminalReason::MaxRetries)
        } else if self.attempt == task.retry.max_retries {
            self.wait = Wait::Recovery;
            EngineAction::Recover
        } else {
            self.wait = Wait::Backoff;
            EngineAction::Backoff(self.attempt)
        }
    }

    /// Starts a task.
    pub fn start(task: &Task, budget_allocated: u64, credits_per_step: u64) -> (r: (
        EngineRun,
        EngineAction,
    ))
        ensures
            ({
                let st = StateView {
                    budget_allocated,
                    credits_per_step,
                    step_credits: 0,
                    tool_credits: 0,
                    tasks_completed: 0,
                    tasks_failed: 0,
                    total_attempts: 0,
                    last_result: None,
                };
                let fresh = EngineRunView {
                    wait: Wait::Over,
                    attempt: 0,
                    low_progress: 0,
                    credits_before: 0,
                    round: 0,
                    agent_lost: false,
                    state: st,
                };
                match task.mode {
                    ExecutionMode::Loop { interval_secs, max_iterations } if interval_secs == 0 => {
                        &&& r.0@ == fresh
                        &&& r.1@ == EngineActionView::Finish(
                            ResultView {
                                reason: TerminalReason::ModelError,
                                tasks_completed: 0,
                                tasks_failed: 0,
                                total_attempts: 0,
                                credits_consumed: 0,
                                last_result: Some("interval_secs must be >= 1"@),
                            },
                        )
                    },
                    _ => (r.0@, r.1@) == round_model(*task, fresh),
                }
            }),
            engine_wf(*task, r.0@),
    {
        let mut run = EngineRun {
            wait: Wait::Over,
            attempt: 0,
            low_progress: 0,
            credits_before: 0,
            round: 0,
            agent_lost: false,
            state: EngineState::new(budget_allocated, credits_per_step),
        };
        if let ExecutionMode::Loop { interval_secs, max_iterations } = &task.mode {
            if *interval_secs == 0 {
                let result = failed_start(copy("interval_secs must be >= 1"));
                return (run, EngineAction::Finish(result));
            }
        }
        let a = run.start_round(task);
        (run, a)
    }

    /// Takes what happened and gives what to do next.
    pub fn advance(&mut self, task: &Task, event: EngineEvent) -> (a: EngineAction)
        requires
            engine_wf(*task, old(self)@),
            has_room(old(self)@),
            awaited(old(self)@, event@),
        ensures
            (final(self)@, a@) == engine_model(*task, old(self)@, event@),
            engine_wf(*task, final(self)@),
    {
        match event {
            EngineEvent::Checked { ttl_expired, budget_exhausted, tool_credits } => {
                self.state.tool_credits = tool_credits;
                if self.wait == Wait::Attempt {
                    self.credits_before = self.state.credits_consumed();
                    if ttl_expired {
                        self.fail(task, TerminalReason::TtlExpired)
                    } else if budget_exhausted {
                        self.fail(task, TerminalReason::BudgetExhausted)
                    } else {
                        self.wait = Wait::Running;
                        EngineAction::Step
                    }
                } else if ttl_expired {
                    self.finish(TerminalReason::TtlExpired)
                } else if budget_exhausted {
                    self.finish(TerminalReason::BudgetExhausted)
                } else {
                    self.start_round(task)
                }
            },
            EngineEvent::Stepped { result, agent_lost, tool_credits } => {
                self.state.tool_credits = tool_credits;
                self.agent_lost = agent_lost;
                match result {
                    Ok(output) => {
                        self.state.step_credits = add_wrapping(
                            self.state.step_credits,
                            self.state.credits_per_step,
                        );
                        self.succeed(task, output)
                    },
                    Err(error) => self.take_error(task, error.as_str()),
                }
            },
            EngineEvent::Continued => {
                if self.wait == Wait::Backoff {
                    self.attempt = self.attempt + 1;
                    self.start_attempt()
                } else if self.wait == Wait::Recovery {
                    self.fail(task, TerminalReason::MaxRetries)
                } else {
                    self.wait = Wait::Round;
                    EngineAction::Check
                }
            },
            EngineEvent::Shutdown => {
                if self.wait == Wait::Backoff {
                    self.fail(task, TerminalReason::Aborted)
                } else {
                    self.finish(TerminalReason::Aborted)
                }
            },
        }
    }

    /// The instructions of the current piece of work.
    pub fn instructions<'a>(&self, task: &'a Task) -> (r: &'a str)
        ensures
            r@ == (match task.mode {
                ExecutionMode::Pipeline { steps } => if self@.round < steps@.len() {
                    steps@[self@.round as int].instructions@
                } else {
                    task.payload.instructions@
                },
                _ => task.payload.instructions@,
            }),
    {
        if let ExecutionMode::Pipeline { steps } = &task.mode {
            let i: usize = self.round as usize;
            if i < steps.len() {
                return steps[i].instructions.as_str();
            }
        }
        task.payload.instructions.as_str()
    }
}

/// The result of a run that could not be started.
pub fn failed_start(error: String) -> (r: EngineResult)
    ensures
        r@ == (ResultView {
            reason: TerminalReason::ModelError,
            tasks_completed: 0,
            tasks_failed: 0,
            total_attempts: 0,
            credits_consumed: 0,
            last_result: Some(error@),
        }),
{
    EngineResult {
        reason: TerminalReason::ModelError,
        tasks_completed: 0,
        tasks_failed: 0,
        total_attempts: 0,
        credits_consumed: 0,
        last_result: Some(error),
    }
}

/// The time that an attempt may take: five minutes where none is set.
pub fn attempt_timeout(task: &Task) -> (r: u64)
    ensures
        r == (if task.terminal.attempt_timeout_secs == 0 {
            300
        } else {
            task.terminal.attempt_timeout_secs
        }),
{
    if task.terminal.attempt_timeout_secs == 0 {
        300
    } else {
        task.terminal.attempt_timeout_secs
    }
}

/// The error of an attempt that took too long.
pub fn timeout_error(secs: u64) -> (r: String)
    ensures
        r@ == "timeout after "@ + dec(secs as nat) + "s"@,
{
    let n = decimal(secs);
    cat3("timeout after ", n.as_str(), "s")
}

/// The error of an attempt whose thread panicked.
pub fn panic_error(text: &str) -> (r: String)
    ensures
        r@ == "agent thread panicked: "@ + text@,
{
    cat2("agent thread panicked: ", text)
}

/// A conversation trimmed to a number of messages: the first one stays, the
/// oldest ones after it go.
pub open spec fn trimmed_context(m: Seq<MessageView>, max: nat) -> Seq<MessageView> {
    if m.len() > max {
        seq![m[0]] + m.skip(m.len() - max + 1)
    } else {
        m
    }
}

/// A conversation after one measure of the recovery cascade.
pub open spec fn recovered(m: Seq<MessageView>, max: nat, step: RecoveryStep) -> Seq<MessageView> {
    match step {
        RecoveryStep::TrimContext => trimmed_context(m, max),
        RecoveryStep::Compact => if m.len() > 1 {
            m.take(1)
        } else {
            m
        },
        RecoveryStep::EscalateBudget => m,
        RecoveryStep::FallbackModel => m,
    }
}

/// A conversation after the measures of a cascade.
pub open spec fn recovered_all(m: Seq<MessageView>, max: nat, cascade: Seq<RecoveryStep>) -> Seq<
    MessageView,
>
    decreases cascade.len(),
{
    if cascade.len() == 0 {
        m
    } else {
        recovered(recovered_all(m, max, cascade.drop_last()), max, cascade.last())
    }
}

/// No measure of the cascade loses the system prompt.
pub proof fn recovery_keeps_the_first_message(
    m: Seq<MessageView>,
    max: nat,
    cascade: Seq<RecoveryStep>,
)
    requires
        m.len() > 0,
        cascade.contains(RecoveryStep::TrimContext) ==> max > 0,
    ensures
        recovered_all(m, max, cascade).len() > 0,
        recovered_all(m, max, cascade)[0] == m[0],
    decreases cascade.len(),
{
    if cascade.len() > 0 {
        let before = cascade.drop_last();
        assert(cascade.contains(cascade.last()));
        assert(forall|step: RecoveryStep|
            before.contains(step) ==> #[trigger] cascade.contains(step));
        recovery_keeps_the_first_message(m, max, before);
    }
}

fn apply_step(agent: &mut Agent, step: RecoveryStep)
    requires
        step == RecoveryStep::TrimContext ==> old(agent).max_window > 0 || old(
            agent,
        ).messages@.len() == 0,
    ensures
        final(agent)@.messages == recovered(
            old(agent)@.messages,
            old(agent)@.limits.max_window,
            step,
        ),
        final(agent)@.limits == old(agent)@.limits,
        final(agent)@.run == old(agent)@.run,
        final(agent).tools == old(agent).tools,
        final(agent).session == old(agent).session,
        final(agent).stream == old(agent).stream,
{
    let ghost before = agent@.messages;
    let n: usize = agent.messages.len();
    match step {
        RecoveryStep::TrimContext => {
            if n > agent.max_window {
                let cut: usize = n - agent.max_window + 1;
                agent.messages = agent.windowed_truncated(cut);
            }
        },
        RecoveryStep::Compact => {
            agent.messages.truncate(1);
            assert(agent@.messages =~= recovered(before, agent.max_window as nat, step));
        },
        RecoveryStep::EscalateBudget => {},
        RecoveryStep::FallbackModel => {},
    }
}

/// Applies a recovery cascade to an agent's conversation.
pub fn apply_cascade(agent: &mut Agent, cascade: &Vec<RecoveryStep>)
    requires
        cascade@.contains(RecoveryStep::TrimContext) ==> old(agent).max_window > 0 || old(
            agent,
        ).messages@.len() == 0,
    ensures
        final(agent)@.messages == recovered_all(
            old(agent)@.messages,
            old(agent)@.limits.max_window,
            cascade@,
        ),
        final(agent)@.limits == old(agent)@.limits,
        final(agent)@.run == old(agent)@.run,
        final(agent).tools == old(agent).tools,
        final(agent).session == old(agent).session,
        final(agent).stream == old(agent).stream,
{
    let n: usize = cascade.len();
    let mut i: usize = 0;
    let ghost start = *agent;
    assert(cascade@.take(0) =~= Seq::empty());
    while i < n
        invariant
            i <= n,
            n == cascade@.len(),
            start == *old(agent),
            agent.max_window == start.max_window,
            cascade@.contains(RecoveryStep::TrimContext) ==> agent.max_window > 0
                || agent.messages@.len() == 0,
            agent@.messages == recovered_all(
                start@.messages,
                start@.limits.max_window,
                cascade@.take(i as int),
            ),
            agent@.limits == start@.limits,
            agent@.run == start@.run,
            agent.tools == start.tools,
            agent.session == start.session,
            agent.stream == start.stream,
        decreases n - i,
    {
        assert(cascade@.take(i as int + 1).drop_last() =~= cascade@.take(i as int));
        assert(cascade@.contains(cascade@[i as int]));
        apply_step(agent, cascade[i]);
        assert(agent@.messages.len() == agent.messages@.len());
        i += 1;
    }
    assert(cascade@.take(n as int) =~= cascade@);
}

/// A task that runs once makes at most one attempt more than it has retries.
pub open spec fn one_shot_bound(task: Task, run: EngineRunView) -> bool {
    &&& run.wait != Wait::Over ==> run.state.total_attempts == run.attempt + 1
    &&& run.state.total_attempts <= task.retry.max_retries + 1
}

/// The bound on the attempts of a task that runs once is kept by every event.
pub proof fn one_shot_attempts_are_bounded(task: Task, run: EngineRunView, event: EngineEventView)
    requires
        task.mode is OneShot,
        engine_wf(task, run),
        has_room(run),
        awaited(run, event),
        run.wait != Wait::Rest,
        run.wait != Wait::Round,
        one_shot_bound(task, run),
    ensures
        ({
            let next = engine_model(task, run, event).0;
            one_shot_bound(task, next) && next.wait != Wait::Rest && next.wait != Wait::Round
        }),
{
}

/// An error of a class that is not retried ends the piece of work at once.
pub proof fn other_errors_are_not_retried(
    task: Task,
    run: EngineRunView,
    error: Seq<char>,
    agent_lost: bool,
    tool_credits: u64,
)
    requires
        run.wait == Wait::Running,
        !task.retry.retryable_errors@.contains(class_of(error)),
    ensures
        ({
            let action = engine_model(
                task,
                run,
                EngineEventView::Stepped { result: Err(error), agent_lost, tool_credits },
            ).1;
            !(action is Backoff) && !(action is Recover)
        }),
{
}

} // verus!
