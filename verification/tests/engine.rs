use agnt::agent::Agent;
use agnt::engine::cron::{next_fire, next_fire_from, parse_field, parse_schedule};
use agnt::engine::observer::EngineObserver;
use agnt::engine::run::{
    apply_cascade, attempt_timeout, classify_error, failed_start, panic_error, timeout_error,
    EngineAction, EngineEvent, EngineRun,
};
use agnt::engine::task::{
    Backoff, BudgetPolicy, CronSchedule, ErrorClass, ExecutionMode, RecoveryPolicy, RecoveryStep,
    RetryPolicy, Task, TaskPayload, TerminalPolicy, TerminalReason,
};
use agnt::message::{FunctionCall, Message, ToolCall};
use agnt::observer::{Disposition, ToolResult};

fn sched(expression: &str) -> CronSchedule {
    CronSchedule {
        expression: expression.into(),
        timezone: "UTC".into(),
        run_on_start: false,
        max_concurrent: 1,
    }
}

const NANOS: u64 = 1_000_000_000;

#[test]
fn every_minute() {
    let next = next_fire(&sched("* * * * *")).unwrap();
    assert!(next / NANOS <= 60);
}

#[test]
fn every_5_minutes() {
    let next = next_fire(&sched("*/5 * * * *")).unwrap();
    assert!(next / NANOS <= 300);
}

#[test]
fn parse_field_star() {
    let values = parse_field("*", 0, 59).unwrap();
    assert_eq!(values.len(), 60);
}

#[test]
fn parse_field_step() {
    let values = parse_field("*/15", 0, 59).unwrap();
    assert_eq!(values, vec![0, 15, 30, 45]);
}

#[test]
fn parse_field_range() {
    let values = parse_field("1-5", 0, 6).unwrap();
    assert_eq!(values, vec![1, 2, 3, 4, 5]);
}

#[test]
fn parse_field_list() {
    let values = parse_field("1,3,5", 0, 6).unwrap();
    assert_eq!(values, vec![1, 3, 5]);
}

#[test]
fn schedules_fire_on_the_next_minute() {
    // 2024-01-01T00:00:30Z.
    let at = 1_704_067_230;
    assert_eq!(next_fire_from(&sched("* * * * *"), at, 0), Some(30 * NANOS));
    assert_eq!(next_fire_from(&sched("5 * * * *"), at, 0), Some(270 * NANOS));
    assert_eq!(next_fire_from(&sched("0 0 29 2 *"), at, 0), Some(5_097_570 * NANOS));
    assert_eq!(next_fire_from(&sched("0 0 30 2 *"), at, 0), None);
    assert_eq!(next_fire_from(&sched("bad"), at, 0), None);
    assert!(parse_schedule("* * * *").is_none());
    assert!(parse_field("9", 0, 6).is_none());
}

fn call(name: &str) -> ToolCall {
    ToolCall {
        id: "1".into(),
        call_type: "function".into(),
        function: FunctionCall { name: name.into(), arguments: "{}".into() },
    }
}

#[test]
fn permits_allowed_tool() {
    let credits = EngineObserver::credits_counter();
    let obs = EngineObserver::new(credits, vec!["read_file".into()], vec![]);
    assert!(matches!(obs.should_dispatch(&call("read_file")), Disposition::Allow));
}

#[test]
fn refuses_unlisted_tool() {
    let credits = EngineObserver::credits_counter();
    let obs = EngineObserver::new(credits, vec!["read_file".into()], vec![]);
    assert!(matches!(
        obs.should_dispatch(&call("shell")),
        Disposition::Refused(_)
    ));
}

#[test]
fn deny_overrides_permit() {
    let credits = EngineObserver::credits_counter();
    let obs = EngineObserver::new(credits, vec!["shell".into()], vec!["shell".into()]);
    assert!(matches!(
        obs.should_dispatch(&call("shell")),
        Disposition::Refused(_)
    ));
}

#[test]
fn meters_credits() {
    let credits = EngineObserver::credits_counter();
    let mut obs = EngineObserver::new(credits, vec![], vec![]);
    let result = ToolResult {
        name: "test".into(),
        output: Ok("ok".into()),
        duration_us: 5000, // 5ms = 5 credits
    };
    obs.on_tool_end(&call("test"), &result);
    assert_eq!(EngineObserver::credits_consumed(&obs.credits), 5);
}

fn payload(text: &str) -> TaskPayload {
    TaskPayload {
        instructions: text.into(),
        context_handles: vec![],
        expected_output_schema: None,
        result_handle_key: None,
    }
}

fn task(mode: ExecutionMode) -> Task {
    Task {
        task_id: Task::new_id(),
        mode,
        retry: RetryPolicy::default(),
        recovery: RecoveryPolicy::default(),
        budget: BudgetPolicy::default(),
        terminal: TerminalPolicy::default(),
        payload: payload("do it"),
    }
}

fn open() -> EngineEvent {
    EngineEvent::Checked { ttl_expired: false, budget_exhausted: false, tool_credits: 0 }
}

fn stepped(result: Result<&str, &str>) -> EngineEvent {
    EngineEvent::Stepped {
        result: match result {
            Ok(s) => Ok(s.to_string()),
            Err(e) => Err(e.to_string()),
        },
        agent_lost: false,
        tool_credits: 0,
    }
}

#[test]
fn a_task_that_succeeds_is_completed() {
    let t = task(ExecutionMode::OneShot);
    let (mut run, a) = EngineRun::start(&t, 100, 1);
    assert!(matches!(a, EngineAction::Check));
    assert!(matches!(run.advance(&t, open()), EngineAction::Step));
    assert_eq!(run.instructions(&t), "do it");
    match run.advance(&t, stepped(Ok("done"))) {
        EngineAction::Finish(r) => {
            assert_eq!(r.reason, TerminalReason::Completed);
            assert_eq!(r.last_result.as_deref(), Some("done"));
            assert_eq!(r.tasks_completed, 1);
            assert_eq!(r.credits_consumed, 1);
        }
        _ => panic!("the task has to end"),
    }
}

#[test]
fn network_errors_are_retried() {
    let t = task(ExecutionMode::OneShot);
    let (mut run, _) = EngineRun::start(&t, 0, 1);
    run.advance(&t, open());
    match run.advance(&t, stepped(Err("connection reset"))) {
        EngineAction::Backoff(attempt) => assert!(t.retry.backoff.can_delay(attempt)),
        _ => panic!("a network error has to be retried"),
    }
    assert!(matches!(run.advance(&t, EngineEvent::Continued), EngineAction::Check));
}

#[test]
fn time_and_budget_end_a_task() {
    let t = task(ExecutionMode::OneShot);
    let (mut run, _) = EngineRun::start(&t, 10, 1);
    let expired =
        EngineEvent::Checked { ttl_expired: true, budget_exhausted: false, tool_credits: 0 };
    match run.advance(&t, expired) {
        EngineAction::Finish(r) => assert_eq!(r.reason, TerminalReason::TtlExpired),
        _ => panic!("an expired task has to end"),
    }
    let (mut run, _) = EngineRun::start(&t, 10, 1);
    let spent = EngineEvent::Checked { ttl_expired: false, budget_exhausted: true, tool_credits: 9 };
    match run.advance(&t, spent) {
        EngineAction::Finish(r) => {
            assert_eq!(r.reason, TerminalReason::BudgetExhausted);
            assert_eq!(r.credits_consumed, 9);
        }
        _ => panic!("a task without budget has to end"),
    }
}

#[test]
fn errors_are_classified() {
    assert_eq!(classify_error("HTTP 429 Too Many Requests"), ErrorClass::RateLimit);
    assert_eq!(classify_error("connection refused"), ErrorClass::Network);
    assert_eq!(classify_error("context length exceeded"), ErrorClass::ContextOverflow);
    let tail = format!("{}429", "x".repeat(300));
    assert_ne!(classify_error(&tail), ErrorClass::RateLimit);
}

#[test]
fn backoff_grows_to_its_cap() {
    let b = Backoff::Exponential { base_ms: 100, cap_ms: 1000, jitter: false };
    assert_eq!(b.delay_for(0, 0), 100);
    assert_eq!(b.delay_for(2, 0), 400);
    assert_eq!(b.delay_for(10, 0), 1000);
    assert_eq!(b.delay(1), 200);
    let j = Backoff::Exponential { base_ms: 100, cap_ms: 1000, jitter: true };
    for i in 0..50 {
        let d = j.delay(2);
        assert!((400..500).contains(&d), "{i}: {d}");
    }
    assert_eq!(Backoff::Fixed { delay_ms: 7 }.delay_for(3, 9), 7);
    assert!(!Task::new_id().is_empty());
}

#[test]
fn only_jitter_needs_room_above_the_cap() {
    let long = u64::MAX;
    let plain = Backoff::Exponential { base_ms: long, cap_ms: long, jitter: false };
    assert!(plain.can_delay(0));
    assert_eq!(plain.delay_for(0, 5), long);
    assert!(!plain.can_delay(1));
    let jitter = Backoff::Exponential { base_ms: long, cap_ms: long, jitter: true };
    assert!(!jitter.can_delay(0));
    let capped = Backoff::Exponential { base_ms: long, cap_ms: 8, jitter: true };
    assert!(capped.can_delay(0));
    assert_eq!(capped.delay_for(0, 3), 9);
}

#[test]
fn recovery_without_trimming_needs_no_window() {
    let mut a = Agent::new("sys");
    a.messages.push(Message::plain("user", "u"));
    a.max_window = 0;
    apply_cascade(&mut a, &vec![RecoveryStep::EscalateBudget, RecoveryStep::FallbackModel]);
    assert_eq!(a.messages.len(), 2);
    apply_cascade(&mut a, &vec![RecoveryStep::Compact]);
    assert_eq!(a.messages.len(), 1);
    a.messages.clear();
    apply_cascade(&mut a, &vec![RecoveryStep::TrimContext]);
    assert!(a.messages.is_empty());
}

#[test]
fn recovery_shortens_the_conversation() {
    let mut a = Agent::new("sys");
    for i in 0..60 {
        a.messages.push(Message::plain("user", &format!("m{i}")));
    }
    let before = a.messages.len();
    apply_cascade(&mut a, &vec![RecoveryStep::TrimContext]);
    assert_eq!(before, 61);
    assert_eq!(a.messages.len(), 40);
    assert_eq!(a.messages[0].role, "system");
    assert_eq!(a.messages[1].content.as_deref(), Some("m21"));
    apply_cascade(&mut a, &vec![RecoveryStep::EscalateBudget, RecoveryStep::Compact]);
    assert_eq!(a.messages.len(), 1);
}

#[test]
fn lost_agents_are_told() {
    let t = task(ExecutionMode::OneShot);
    assert_eq!(attempt_timeout(&t), t.terminal.attempt_timeout_secs);
    assert!(timeout_error(5).contains('5'));
    assert!(panic_error("boom").contains("boom"));
    let r = failed_start("no backend".into());
    assert_eq!(r.last_result.as_deref(), Some("no backend"));
    assert_eq!(r.reason, TerminalReason::ModelError);
}

#[test]
fn one_shot_tasks_are_attempted_a_bounded_number_of_times() {
    let mut t = task(ExecutionMode::OneShot);
    t.retry.max_retries = 2;
    t.budget.diminishing_returns_window = 100;
    let (mut run, mut action) = EngineRun::start(&t, 0, 1);
    let mut steps = 0;
    loop {
        action = match action {
            EngineAction::Check => run.advance(&t, open()),
            EngineAction::Step => {
                steps += 1;
                run.advance(&t, stepped(Err("connection reset")))
            }
            EngineAction::Finish(r) => {
                assert_eq!(r.reason, TerminalReason::MaxRetries);
                assert_eq!(r.total_attempts, 3);
                break;
            }
            _ => run.advance(&t, EngineEvent::Continued),
        };
    }
    assert_eq!(steps, 3);
}

#[test]
fn other_errors_end_a_task() {
    let t = task(ExecutionMode::OneShot);
    let (mut run, _) = EngineRun::start(&t, 0, 1);
    run.advance(&t, open());
    match run.advance(&t, stepped(Err("tool dispatch failed"))) {
        EngineAction::Finish(r) => assert_eq!(r.reason, TerminalReason::ModelError),
        _ => panic!("the task has to end"),
    }
}

#[test]
fn loops_and_pipelines_go_on() {
    let t = task(ExecutionMode::Loop { interval_secs: 5, max_iterations: Some(2) });
    let (mut run, _) = EngineRun::start(&t, 0, 1);
    run.advance(&t, open());
    assert!(matches!(run.advance(&t, stepped(Ok("one"))), EngineAction::Rest(5)));
    match run.advance(&t, EngineEvent::Shutdown) {
        EngineAction::Finish(r) => assert_eq!(r.reason, TerminalReason::Aborted),
        _ => panic!("a shutdown has to end the task"),
    }
    let zero = task(ExecutionMode::Loop { interval_secs: 0, max_iterations: None });
    match EngineRun::start(&zero, 0, 1).1 {
        EngineAction::Finish(r) => {
            assert_eq!(r.last_result.as_deref(), Some("interval_secs must be >= 1"))
        }
        _ => panic!("a loop without pause is refused"),
    }
    let p = task(ExecutionMode::Pipeline { steps: vec![payload("first"), payload("second")] });
    let (mut run, _) = EngineRun::start(&p, 0, 1);
    run.advance(&p, open());
    assert_eq!(run.instructions(&p), "first");
    assert!(matches!(run.advance(&p, stepped(Ok("1"))), EngineAction::Check));
    run.advance(&p, open());
    assert_eq!(run.instructions(&p), "second");
    match run.advance(&p, stepped(Ok("2"))) {
        EngineAction::Finish(r) => {
            assert_eq!(r.reason, TerminalReason::PipelineCompleted);
            assert_eq!(r.tasks_completed, 2);
        }
        _ => panic!("the pipeline has to end"),
    }
}
