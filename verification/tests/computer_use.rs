use agnt::tools::computer::{
    active_window_class, class_at_coord, command_failure, confirm_reply_subject, confirm_request,
    confirm_request_subject, default_safe_focus_apps, default_safe_keys, evaluate_smart,
    gate_refusal, judge_reply, mouse_report, parse_mouse, plan_click, plan_focus, plan_key,
    plan_scroll, plan_type, validate_combo, validate_typed_text, ActionKind, ActionRun, ActionStep,
    ClickArgs, FocusWindowArgs, GateOutcome, KeyComboArgs, Lookup, SafetyMode, SafetyPolicy,
    ScrollArgs, SmartDecision, TypeTextArgs,
};
use agnt::json::{parse, render, Json};
use agnt::tools::shell::CmdOutput;
use agnt::wire::{ConfirmReply, RequestId};

#[test]
fn safety_mode_parses_known_strings() {
    assert_eq!(SafetyMode::parse("off").unwrap(), SafetyMode::Off);
    assert_eq!(SafetyMode::parse("confirm").unwrap(), SafetyMode::Confirm);
    assert_eq!(SafetyMode::parse("smart").unwrap(), SafetyMode::Smart);
    assert_eq!(SafetyMode::parse("  Smart  ").unwrap(), SafetyMode::Smart);
    assert_eq!(SafetyMode::parse("CONFIRM").unwrap(), SafetyMode::Confirm);
}

#[test]
fn safety_mode_rejects_unknown_strings() {
    assert!(SafetyMode::parse("paranoid").is_err());
    assert!(SafetyMode::parse("").is_err());
    assert!(SafetyMode::parse("yolo").is_err());
}

#[test]
fn safety_mode_error_names_the_mode() {
    assert_eq!(
        SafetyMode::parse(" YOLO ").unwrap_err(),
        "unknown computer_use_safety mode 'yolo' (expected off/confirm/smart)"
    );
}

#[test]
fn safety_mode_default_is_confirm() {
    assert_eq!(SafetyMode::default(), SafetyMode::Confirm);
}

#[test]
fn validate_combo_rejects_shell_injection() {
    let bad = [
        "Return; rm -rf /",
        "Return && curl evil",
        "ctrl+c | nc",
        "key with space",
        "key.with.dot",
        "",
        "key/with/slash",
        "key`backtick`",
        "key$(cmd)",
    ];
    for c in bad {
        assert!(validate_combo(c).is_err(), "expected '{c}' rejected");
    }
}

#[test]
fn validate_combo_accepts_real_combos() {
    let good = [
        "Return",
        "Escape",
        "Tab",
        "ctrl+c",
        "alt+Tab",
        "super+l",
        "Page_Down",
    ];
    for c in good {
        validate_combo(c).expect(c);
    }
}

#[test]
fn validate_typed_text_rejects_clearmodifiers_marker() {
    assert!(validate_typed_text("hello --clearmodifiers world").is_err());
}

#[test]
fn validate_typed_text_rejects_leading_dash() {
    assert!(validate_typed_text("-rm -rf").is_err());
}

#[test]
fn validate_typed_text_accepts_normal_text() {
    validate_typed_text("hello world").unwrap();
    validate_typed_text("rm -rf").unwrap(); // not leading
    validate_typed_text("SELECT * FROM users").unwrap();
}

fn smart_policy() -> SafetyPolicy {
    SafetyPolicy {
        mode: SafetyMode::Smart,
        safe_keys: vec!["Escape".into(), "Return".into(), "alt+Tab".into()],
        safe_focus_apps: vec!["kitty".into(), "Code".into()],
    }
}

#[test]
fn smart_safe_key_bypasses_confirm() {
    let p = smart_policy();
    assert!(matches!(
        evaluate_smart(&p, ActionKind::Key, Some("Escape"), None),
        SmartDecision::Bypass(_)
    ));
    assert!(matches!(
        evaluate_smart(&p, ActionKind::Key, Some("alt+Tab"), Some("Slack")),
        SmartDecision::Bypass(_)
    ));
}

#[test]
fn smart_unsafe_key_in_unsafe_app_requires_confirm() {
    let p = smart_policy();
    let outcome = evaluate_smart(&p, ActionKind::Key, Some("ctrl+w"), Some("Slack"));
    assert_eq!(outcome, SmartDecision::MustConfirm);
}

#[test]
fn smart_safe_app_bypasses_type() {
    let p = smart_policy();
    let outcome = evaluate_smart(&p, ActionKind::Type, None, Some("kitty"));
    assert!(matches!(outcome, SmartDecision::Bypass(_)));
}

#[test]
fn smart_safe_app_bypasses_key_too() {
    let p = smart_policy();
    let outcome = evaluate_smart(&p, ActionKind::Key, Some("ctrl+w"), Some("Code"));
    assert!(matches!(outcome, SmartDecision::Bypass(_)));
}

#[test]
fn smart_unsafe_app_with_unsafe_key_requires_confirm() {
    let p = smart_policy();
    let outcome = evaluate_smart(&p, ActionKind::Type, None, Some("Slack"));
    assert_eq!(outcome, SmartDecision::MustConfirm);
}

#[test]
fn smart_click_always_requires_confirm() {
    let p = smart_policy();
    // Even over a safe app, click never bypasses.
    let outcome = evaluate_smart(&p, ActionKind::Click, None, Some("kitty"));
    assert_eq!(outcome, SmartDecision::MustConfirm);
}

#[test]
fn smart_scroll_always_requires_confirm() {
    let p = smart_policy();
    let outcome = evaluate_smart(&p, ActionKind::Scroll, None, Some("kitty"));
    assert_eq!(outcome, SmartDecision::MustConfirm);
}

#[test]
fn off_mode_bypasses_everything() {
    let p = SafetyPolicy {
        mode: SafetyMode::Off,
        safe_keys: vec![],
        safe_focus_apps: vec![],
    };
    let outcome = evaluate_smart(&p, ActionKind::Click, None, None);
    assert!(matches!(outcome, SmartDecision::Bypass(_)));
}

#[test]
fn confirm_mode_always_requires_confirm() {
    let p = SafetyPolicy {
        mode: SafetyMode::Confirm,
        safe_keys: vec!["Escape".into()],
        safe_focus_apps: vec!["kitty".into()],
    };
    // Even with the key in the safe list and a safe app, confirm mode
    // always requires confirmation.
    let outcome = evaluate_smart(&p, ActionKind::Key, Some("Escape"), Some("kitty"));
    assert_eq!(outcome, SmartDecision::MustConfirm);
}

#[test]
fn smart_safe_app_match_is_case_insensitive() {
    let p = smart_policy();
    let outcome = evaluate_smart(&p, ActionKind::Type, None, Some("KITTY"));
    assert!(matches!(outcome, SmartDecision::Bypass(_)));
}

#[test]
fn confirm_subjects_use_canonical_agnt_namespace() {
    assert_eq!(confirm_request_subject(), "agnt.confirm.request");
    assert_eq!(confirm_reply_subject(), "agnt.confirm.reply");
}

#[test]
fn default_lists_hold_navigation_keys_and_terminals() {
    let p = SafetyPolicy::default();
    assert_eq!(p.safe_keys, default_safe_keys());
    assert_eq!(p.safe_focus_apps, default_safe_focus_apps());
    assert!(p.safe_keys.contains(&"Escape".to_string()));
    assert!(p.safe_focus_apps.contains(&"kitty".to_string()));
}

fn ok(stdout: &str) -> CmdOutput {
    CmdOutput { stdout: stdout.into(), stderr: String::new(), status_ok: true }
}

fn failed(stderr: &str) -> CmdOutput {
    CmdOutput { stdout: String::new(), stderr: stderr.into(), status_ok: false }
}

#[test]
fn approval_needs_a_matching_reply() {
    let id = RequestId(7);
    let reply = |request_id: String, approved: bool| ConfirmReply {
        request_id,
        approved,
        source: None,
    };
    assert!(matches!(
        judge_reply(&id, &reply(id.to_text(), true)),
        Some(GateOutcome::Allowed)
    ));
    assert!(matches!(
        judge_reply(&id, &reply(id.to_text(), false)),
        Some(GateOutcome::Denied)
    ));
    assert!(judge_reply(&id, &reply(RequestId(8).to_text(), true)).is_none());
    // A reply without an identifier answers whatever is asked.
    assert!(matches!(
        judge_reply(&id, &reply(String::new(), true)),
        Some(GateOutcome::Allowed)
    ));
}

#[test]
fn refusals_say_why() {
    assert!(gate_refusal("click", &GateOutcome::Allowed).is_none());
    assert!(gate_refusal("click", &GateOutcome::Denied).unwrap().contains("click"));
    assert!(gate_refusal("click", &GateOutcome::Timeout).unwrap().contains("30"));
    assert!(gate_refusal("click", &GateOutcome::PublishFailed("gone".into()))
        .unwrap()
        .contains("gone"));
}

#[test]
fn confirm_requests_carry_the_call() {
    let id = RequestId(1);
    let req = confirm_request(id, "click", parse("{\"x\":1}").unwrap(), "click at 1".into(), 42);
    assert_eq!(req.request_id, id);
    assert_eq!(req.expires_at_ns, 42 + 30_000_000_000);
    assert_eq!(req.tool, "click");
    assert_eq!(render(&req.args), "{\"x\":1}");
    assert_eq!(req.preview, "click at 1");
}

fn click(button: Option<&str>, double: Option<bool>) -> ClickArgs {
    ClickArgs { x: 10, y: 20, button: button.map(|b| b.to_string()), double }
}

#[test]
fn click_moves_and_then_clicks() {
    let plan = plan_click(&click(None, None)).unwrap();
    assert_eq!(plan.tool, "click");
    assert!(matches!(plan.lookup, Lookup::At(10, 20)));
    assert!(!plan.commands.is_empty());
    assert!(plan.commands[0].args.contains(&"10".to_string()));
    assert!(plan.commands[0].args.contains(&"20".to_string()));
    assert!(plan_click(&click(Some("nose"), None)).is_err());
}

#[test]
fn an_approved_action_runs_all_its_commands() {
    let plan = plan_click(&click(Some("right"), Some(true))).unwrap();
    let n = plan.commands.len();
    let policy = smart_policy();
    let (mut run, step) = ActionRun::begin(plan, Some("Slack".into()), &policy);
    assert!(matches!(step, ActionStep::Confirm(_)));
    let mut step = run.on_gate(&GateOutcome::Allowed);
    let mut seen = 0;
    while let ActionStep::Run(i) = step {
        assert_eq!(i, seen);
        seen += 1;
        step = run.on_output(Ok(ok("")));
    }
    assert_eq!(seen, n);
    match step {
        ActionStep::Done(Ok(text)) => assert!(text.contains("10") && text.contains("20")),
        _ => panic!("the action has to end"),
    }
}

#[test]
fn a_denied_action_runs_nothing() {
    let plan = plan_type(&TypeTextArgs { text: "hello".into() }).unwrap();
    let policy = SafetyPolicy::default();
    let (mut run, step) = ActionRun::begin(plan, None, &policy);
    assert!(matches!(step, ActionStep::Confirm(_)));
    match run.on_gate(&GateOutcome::Denied) {
        ActionStep::Done(Err(e)) => assert!(e.contains("type_text"), "{e}"),
        _ => panic!("a denied action has to end"),
    }
}

#[test]
fn a_failed_command_ends_the_action() {
    let plan = plan_key(&KeyComboArgs { combo: "Escape".into() }).unwrap();
    let policy = smart_policy();
    let (mut run, step) = ActionRun::begin(plan, None, &policy);
    assert!(matches!(step, ActionStep::Run(0)));
    match run.on_output(Ok(failed("no display"))) {
        ActionStep::Done(Err(e)) => assert!(e.contains("no display"), "{e}"),
        _ => panic!("a failed command has to end the action"),
    }
}

#[test]
fn plans_reject_what_they_cannot_do() {
    assert!(plan_type(&TypeTextArgs { text: String::new() }).is_err());
    assert!(plan_type(&TypeTextArgs { text: "x".repeat(4097) }).is_err());
    assert!(plan_type(&TypeTextArgs { text: "x".repeat(4096) }).is_ok());
    assert!(plan_key(&KeyComboArgs { combo: "a b".into() }).is_err());
    assert!(plan_scroll(&ScrollArgs { direction: "sideways".into(), amount: None }).is_err());
    assert!(plan_scroll(&ScrollArgs { direction: "down".into(), amount: Some(2) }).is_ok());
    assert!(plan_focus(&FocusWindowArgs { query: " ".into() }).is_err());
}

#[test]
fn command_failures_are_told() {
    let plan = plan_focus(&FocusWindowArgs { query: "kitty".into() }).unwrap();
    assert!(command_failure(&plan.commands[0], &ok("")).is_none());
    assert!(command_failure(&plan.commands[0], &failed("no window"))
        .unwrap()
        .contains("no window"));
}

#[test]
fn window_classes_are_read() {
    assert_eq!(active_window_class(&ok("kitty\n")), Some("kitty".to_string()));
    assert_eq!(active_window_class(&failed("x")), None);
    assert_eq!(class_at_coord(&failed("x")), None);
}

#[test]
fn mouse_locations_are_read() {
    let m = parse_mouse("X=12\nY=34\nSCREEN=0\nWINDOW=56\n");
    assert_eq!(m.x, 12);
    assert_eq!(m.y, 34);
    assert_eq!(m.window.as_deref(), Some("56"));
    let text = mouse_report(&m, Some("kitty"), Some("shell"));
    let v = parse(&text).unwrap();
    assert_eq!(v.uint_field("x"), Some(12));
    assert_eq!(v.uint_field("y"), Some(34));
    let _: &Json = &v;
}
