//! What a task is, how it is retried and when it stops.
use vstd::prelude::*;
use vstd::string::*;
use crate::ids::{hex_digits, is_random, random_uuid, uuid_simple};
use crate::text::{cat2, copy};

verus! {

/// The work of a task.
#[derive(Debug)]
pub struct TaskPayload {
    pub instructions: String,
    pub context_handles: Vec<String>,
    pub expected_output_schema: Option<String>,
    pub result_handle_key: Option<String>,
}

/// How often the work is done.
#[derive(Debug)]
pub enum ExecutionMode {
    /// Once.
    OneShot,
    /// Again and again with a pause in between.
    Loop { interval_secs: u64, max_iterations: Option<u32> },
    /// Until it succeeds.
    UntilSuccess { max_attempts: u32 },
    /// Several pieces of work in a row.
    Pipeline { steps: Vec<TaskPayload> },
}

/// How a failed attempt is retried.
#[derive(Debug)]
pub struct RetryPolicy {
    pub max_retries: u32,
    pub backoff: Backoff,
    pub retryable_errors: Vec<ErrorClass>,
}

/// The pause before a retry.
#[derive(Clone, Copy, Debug)]
pub enum Backoff {
    Fixed { delay_ms: u64 },
    Exponential { base_ms: u64, cap_ms: u64, jitter: bool },
}

/// What kind of failure an error is.
#[derive(Clone, Copy, Debug, PartialEq, Eq, Structural)]
pub enum ErrorClass {
    Network,
    RateLimit,
    ServerError,
    InferenceError,
    ContextOverflow,
    ToolFailure,
}

/// What is tried once the retries are used up.
#[derive(Debug)]
pub struct RecoveryPolicy {
    pub cascade: Vec<RecoveryStep>,
    pub max_escalations: u32,
}

/// One measure of the recovery cascade.
#[derive(Clone, Copy, Debug, PartialEq, Eq, Structural)]
pub enum RecoveryStep {
    TrimContext,
    Compact,
    EscalateBudget,
    FallbackModel,
}

/// When attempts that get nowhere are given up. The fraction of the budget at
/// which a task counts as exhausted is not an integer and stays with the caller.
#[derive(Clone, Copy, Debug)]
pub struct BudgetPolicy {
    pub diminishing_returns_window: u32,
    pub diminishing_returns_min_progress: u64,
}

/// When a task ends.
#[derive(Clone, Copy, Debug)]
pub struct TerminalPolicy {
    pub max_turns: Option<u32>,
    pub attempt_timeout_secs: u64,
    pub on_step_failure: StepFailureAction,
}

/// What a failed pipeline step does to the pipeline.
#[derive(Clone, Copy, Debug, PartialEq, Eq, Structural)]
pub enum StepFailureAction {
    Abort,
    Skip,
    Retry,
}

/// Why a task ended.
#[derive(Clone, Copy, Debug, PartialEq, Eq, Structural)]
pub enum TerminalReason {
    Completed,
    PipelineCompleted,
    MaxTurns,
    BudgetExhausted,
    TtlExpired,
    MaxRetries,
    Aborted,
    PolicyBlocked,
    ModelError,
    DiminishingReturns,
    MaxIterations,
    Decommissioned,
}

/// A schedule in the form of a cron expression.
#[derive(Debug)]
pub struct CronSchedule {
    pub expression: String,
    pub timezone: String,
    pub run_on_start: bool,
    pub max_concurrent: u32,
}

/// What to do, how to retry, and when to stop.
#[derive(Debug)]
pub struct Task {
    pub task_id: String,
    pub mode: ExecutionMode,
    pub retry: RetryPolicy,
    pub recovery: RecoveryPolicy,
    pub budget: BudgetPolicy,
    pub terminal: TerminalPolicy,
    pub payload: TaskPayload,
}

impl Default for Backoff {
    fn default() -> (r: Self)
        ensures
            r == (Backoff::Exponential { base_ms: 500, cap_ms: 32000, jitter: true }),
    {
        Backoff::Exponential { base_ms: 500, cap_ms: 32000, jitter: true }
    }
}

/// Two to the power of `n`, or the largest `u64`.
pub open spec fn sat_pow2(n: nat) -> int
    decreases n,
{
    if n == 0 {
        1
    } else if n >= 64 {
        u64::MAX as int
    } else {
        2 * sat_pow2((n - 1) as nat)
    }
}

proof fn lemma_pow2_bound(n: nat)
    requires
        n < 64,
    ensures
        1 <= sat_pow2(n) <= 0x8000_0000_0000_0000,
        n < 63 ==> sat_pow2(n) <= 0x4000_0000_0000_0000,
{
    reveal_with_fuel(sat_pow2, 64);
}

fn pow2_saturating(n: u32) -> (r: u64)
    ensures
        r == sat_pow2(n as nat),
{
    if n >= 64 {
        return u64::MAX;
    }
    let mut i: u32 = 0;
    let mut p: u64 = 1;
    while i < n
        invariant
            i <= n < 64,
            p == sat_pow2(i as nat),
        decreases n - i,
    {
        proof {
            lemma_pow2_bound(i as nat);
        }
        i += 1;
        p = p * 2;
    }
    p
}

impl Backoff {
    /// The pause before jitter, in milliseconds.
    pub open spec fn plain(self, attempt: u32) -> int {
        match self {
            Backoff::Fixed { delay_ms } => delay_ms as int,
            Backoff::Exponential { base_ms, cap_ms, jitter } => {
                let d = base_ms * sat_pow2(attempt as nat);
                if d < cap_ms {
                    d
                } else {
                    cap_ms as int
                }
            },
        }
    }

    /// The pause with a random number's worth of jitter.
    pub open spec fn with_jitter(self, attempt: u32, random: u64) -> int {
        let d = self.plain(attempt);
        match self {
            Backoff::Exponential { base_ms, cap_ms, jitter } if jitter => {
                let range = if d / 4 < 1 {
                    1
                } else {
                    d / 4
                };
                d + random as int % range
            },
            _ => d,
        }
    }

    /// The pause can be computed in 64 bits, whatever the jitter.
    pub open spec fn fits(self, attempt: u32) -> bool {
        match self {
            Backoff::Fixed { delay_ms } => true,
            Backoff::Exponential { base_ms, cap_ms, jitter } => {
                &&& base_ms * sat_pow2(attempt as nat) <= u64::MAX
                &&& jitter ==> self.plain(attempt) + self.plain(attempt) / 4 <= u64::MAX + 1
            },
        }
    }

    /// Whether the pause can be computed in 64 bits, whatever the jitter.
    pub fn can_delay(&self, attempt: u32) -> (r: bool)
        ensures
            r == self.fits(attempt),
    {
        match *self {
            Backoff::Fixed { delay_ms } => true,
            Backoff::Exponential { base_ms, cap_ms, jitter } => {
                let p: u64 = pow2_saturating(attempt);
                match base_ms.checked_mul(p) {
                    None => false,
                    Some(d) => {
                        let d: u64 = if d < cap_ms {
                            d
                        } else {
                            cap_ms
                        };
                        !jitter || d / 4 == 0 || d.checked_add(d / 4 - 1).is_some()
                    },
                }
            },
        }
    }

    /// The pause before retry number `attempt`, in milliseconds, for a given
    /// random number.
    pub fn delay_for(&self, attempt: u32, random: u64) -> (r: u64)
        requires
            self.fits(attempt),
        ensures
            r == self.with_jitter(attempt, random),
    {
        match *self {
            Backoff::Fixed { delay_ms } => delay_ms,
            Backoff::Exponential { base_ms, cap_ms, jitter } => {
                let p: u64 = pow2_saturating(attempt);
                let full: u64 = base_ms * p;
                let d: u64 = if full < cap_ms {
                    full
                } else {
                    cap_ms
                };
                if jitter {
                    let range: u64 = if d / 4 < 1 {
                        1
                    } else {
                        d / 4
                    };
                    d + random % range
                } else {
                    d
                }
            },
        }
    }

    /// The pause before retry number `attempt`, in milliseconds.
    pub fn delay(&self, attempt: u32) -> (r: u64)
        requires
            self.fits(attempt),
        ensures
            exists|random: u64| r == self.with_jitter(attempt, random),
    {
        let random: u64 = random_u64();
        self.delay_for(attempt, random)
    }
}

/// A pause with jitter is at least the plain pause and exceeds it by less than a
/// quarter, or not at all where it is shorter than four milliseconds.
pub proof fn jitter_adds_less_than_a_quarter(b: Backoff, attempt: u32, random: u64)
    ensures
        b.plain(attempt) <= b.with_jitter(attempt, random),
        b.with_jitter(attempt, random) <= b.plain(attempt) + b.plain(attempt) / 4,
{
    let d = b.plain(attempt);
    if let Backoff::Exponential { base_ms, cap_ms, jitter } = b {
        assert(d >= 0) by {
            lemma_pow2_nonneg(attempt as nat);
            assert(base_ms * sat_pow2(attempt as nat) >= 0) by (nonlinear_arith)
                requires
                    base_ms >= 0,
                    sat_pow2(attempt as nat) >= 0,
            ;
        }
    }
}

proof fn lemma_pow2_nonneg(n: nat)
    ensures
        sat_pow2(n) >= 1,
    decreases n,
{
    if n > 0 && n < 64 {
        lemma_pow2_nonneg((n - 1) as nat);
    }
}

/// `rand::random::<u64>`: some number.
#[verifier::external_body]
fn random_u64() -> u64 {
    rand::random::<u64>()
}

impl Task {
    /// A fresh task identifier.
    pub fn new_id() -> (r: String)
        ensures
            exists|n: u128| #[trigger] is_random(n) && r@ == "task-"@ + hex_digits(n as nat, 32),
    {
        let n: u128 = random_uuid();
        assert(is_random(n));
        let hex = uuid_simple(n);
        cat2("task-", hex.as_str())
    }
}

pub fn default_max_retries() -> (r: u32)
    ensures
        r == 10,
{
    10
}

/// The errors that are retried by default.
pub fn default_retryable_errors() -> (r: Vec<ErrorClass>)
    ensures
        r@ == seq![
            ErrorClass::Network,
            ErrorClass::RateLimit,
            ErrorClass::ServerError,
            ErrorClass::InferenceError,
        ],
{
    let r = vec![
        ErrorClass::Network,
        ErrorClass::RateLimit,
        ErrorClass::ServerError,
        ErrorClass::InferenceError,
    ];
    assert(r@ =~= seq![
        ErrorClass::Network,
        ErrorClass::RateLimit,
        ErrorClass::ServerError,
        ErrorClass::InferenceError,
    ]);
    r
}

impl Default for RetryPolicy {
    fn default() -> (r: Self)
        ensures
            r.max_retries == 10,
            r.backoff == (Backoff::Exponential { base_ms: 500, cap_ms: 32000, jitter: true }),
            r.retryable_errors@ == seq![
                ErrorClass::Network,
                ErrorClass::RateLimit,
                ErrorClass::ServerError,
                ErrorClass::InferenceError,
            ],
    {
        RetryPolicy {
            max_retries: default_max_retries(),
            backoff: Backoff::default(),
            retryable_errors: default_retryable_errors(),
        }
    }
}

/// The default recovery cascade.
pub fn default_cascade() -> (r: Vec<RecoveryStep>)
    ensures
        r@ == seq![
            RecoveryStep::TrimContext,
            RecoveryStep::Compact,
            RecoveryStep::EscalateBudget,
        ],
{
    let r = vec![RecoveryStep::TrimContext, RecoveryStep::Compact, RecoveryStep::EscalateBudget];
    assert(r@ =~= seq![
        RecoveryStep::TrimContext,
        RecoveryStep::Compact,
        RecoveryStep::EscalateBudget,
    ]);
    r
}

pub fn default_max_escalations() -> (r: u32)
    ensures
        r == 2,
{
    2
}

impl Default for RecoveryPolicy {
    fn default() -> (r: Self)
        ensures
            r.cascade@ == seq![
                RecoveryStep::TrimContext,
                RecoveryStep::Compact,
                RecoveryStep::EscalateBudget,
            ],
            r.max_escalations == 2,
    {
        RecoveryPolicy { cascade: default_cascade(), max_escalations: default_max_escalations() }
    }
}

pub fn default_dim_window() -> (r: u32)
    ensures
        r == 3,
{
    3
}

pub fn default_min_progress() -> (r: u64)
    ensures
        r == 50,
{
    50
}

impl Default for BudgetPolicy {
    fn default() -> (r: Self)
        ensures
            r == (BudgetPolicy {
                diminishing_returns_window: 3,
                diminishing_returns_min_progress: 50,
            }),
    {
        BudgetPolicy {
            diminishing_returns_window: default_dim_window(),
            diminishing_returns_min_progress: default_min_progress(),
        }
    }
}

pub fn default_timeout() -> (r: u64)
    ensures
        r == 300,
{
    300
}

impl Default for StepFailureAction {
    fn default() -> (r: Self)
        ensures
            r == StepFailureAction::Abort,
    {
        StepFailureAction::Abort
    }
}

impl Default for TerminalPolicy {
    fn default() -> (r: Self)
        ensures
            r == (TerminalPolicy {
                max_turns: None,
                attempt_timeout_secs: 300,
                on_step_failure: StepFailureAction::Abort,
            }),
    {
        TerminalPolicy {
            max_turns: None,
            attempt_timeout_secs: default_timeout(),
            on_step_failure: StepFailureAction::default(),
        }
    }
}

pub fn default_tz() -> (r: String)
    ensures
        r@ == "UTC"@,
{
    copy("UTC")
}

pub fn default_max_concurrent() -> (r: u32)
    ensures
        r == 1,
{
    1
}

} // verus!
