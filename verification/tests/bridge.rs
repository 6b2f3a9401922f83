use agnt::agent::Agent;
use agnt::bridge::config::{
    default_password_env, default_user_env, AgentBridgeConfig, AgentSection, BackendKind,
    BackendSection, BusSection, ConversationConfig, PromptSection, StoreSection, StreamingSection,
    ToolsSection,
};
use agnt::bridge::dispatch::{
    approximate_tokens, cancel_reply, cancel_target, clears_in_flight, outcome_of, prepare_step,
    rotate_agent_session, start_dispatch, token_subject, trim_history_to_turns, AgentRunner,
    DispatchStart, EchoRunner, SessionDecision, SessionDirective, SessionState, StepInputs,
    ToolObserver,
};
use agnt::bridge::harmony::HarmonyStripper;
use agnt::bridge::prompt::{
    augment_user_input, build_static_prompt, read_trimmed, recall_context, recall_query,
    render_template, AgentDef,
};
use agnt::bridge::setup::{
    build_openai, build_system_tools_config, cancel_subject, choose_tool, choose_tools, prompt_source,
    read_prompt, PromptSource, ToolChoice,
};
use agnt::message::{FunctionCall, Message, ToolCall};
use agnt::tools::computer::SafetyMode;
use agnt::wire::{AgentCancel, AgentDispatch, RequestId};

const SECOND: u64 = 1_000_000_000;

#[test]
fn echo_runner_bounces_input() {
    let r = EchoRunner;
    let out = r.run_step(StepInputs {
        user_input: "hello world",
        streaming: false,
        session: SessionDirective::Reuse,
        max_history_turns: 20,
    });
    assert!(out.ok);
    assert_eq!(out.text, "echo: hello world");
    // approximate_tokens just splits on whitespace — "echo:", "hello",
    // "world" = 3.
    assert_eq!(out.tokens, 3);
    assert!(out.error.is_none());
    assert!(out.tool_calls.is_empty());
}

#[test]
fn echo_runner_streams_tokens_through_sink() {
    let r = EchoRunner;
    let out = r.run_step(StepInputs {
        user_input: "alpha beta",
        streaming: true,
        session: SessionDirective::Reuse,
        max_history_turns: 20,
    });
    let pieces = r.pieces(&out.text);
    // "echo: alpha beta" → ["echo:", " ", "alpha", " ", "beta"]
    assert_eq!(pieces, vec!["echo:", " ", "alpha", " ", "beta"]);
}

#[test]
fn approximate_tokens_counts_words() {
    assert_eq!(approximate_tokens(""), 0);
    assert_eq!(approximate_tokens("a"), 1);
    assert_eq!(approximate_tokens("a b c"), 3);
    assert_eq!(approximate_tokens("  multiple   spaces "), 2);
}

#[test]
fn session_first_dispatch_reuses_initial_id() {
    let mut s = SessionState::new();
    let initial = s.session_id.clone();
    let now = 5 * SECOND;
    match s.decide(60 * SECOND, now) {
        SessionDecision::Reuse(id) => assert_eq!(id, initial),
        SessionDecision::Rotate(_) => panic!("first dispatch must reuse"),
    }
}

#[test]
fn session_within_window_reuses() {
    let mut s = SessionState::new();
    let t0 = 7 * SECOND;
    s.mark_turn(t0);
    let still_in = t0 + 5 * SECOND;
    match s.decide(60 * SECOND, still_in) {
        SessionDecision::Reuse(_) => {}
        SessionDecision::Rotate(_) => panic!("inside window must reuse"),
    }
}

#[test]
fn session_after_timeout_rotates() {
    let mut s = SessionState::new();
    let initial = s.session_id.clone();
    let t0 = 7 * SECOND;
    s.mark_turn(t0);
    let later = t0 + 120 * SECOND;
    match s.decide(60 * SECOND, later) {
        SessionDecision::Rotate(new_id) => {
            assert_ne!(new_id, initial);
            assert_eq!(s.session_id, new_id);
            assert!(s.last_message_at.is_none(), "rotation clears clock");
        }
        SessionDecision::Reuse(_) => panic!("must rotate past timeout"),
    }
}

#[test]
fn session_zero_timeout_means_always_rotate_after_first_turn() {
    let mut s = SessionState::new();
    let t0 = 7 * SECOND;
    s.mark_turn(t0);
    // Even a zero-duration timeout shouldn't fire on the same instant
    // because we use `<` (strict less-than). Bumping by 1ns suffices.
    let later = t0 + 1;
    match s.decide(0, later) {
        SessionDecision::Rotate(_) => {}
        SessionDecision::Reuse(_) => panic!("zero timeout should rotate"),
    }
}

#[test]
fn a_session_idle_for_exactly_the_timeout_goes_on() {
    let mut s = SessionState::new();
    let id = s.session_id.clone();
    s.mark_turn(7 * SECOND);
    assert!(matches!(s.decide(60 * SECOND, 67 * SECOND), SessionDecision::Reuse(i) if i == id));
    match s.decide(60 * SECOND, 67 * SECOND + 1) {
        SessionDecision::Rotate(fresh) => {
            assert_ne!(fresh, id);
            // The version and the variant of a random identifier.
            assert_eq!(&fresh[14..15], "4");
            assert!("89ab".contains(&fresh[19..20]));
            // A stale session is rotated once.
            let next = s.decide(60 * SECOND, 900 * SECOND);
            assert!(matches!(next, SessionDecision::Reuse(i) if i == fresh));
        }
        SessionDecision::Reuse(_) => panic!("a stale session must rotate"),
    }
}

#[test]
fn passthrough_no_markers() {
    let mut s = HarmonyStripper::new();
    let mut got = s.process("Hello world.");
    got.push_str(&s.flush());
    assert_eq!(got, "Hello world.");
}

#[test]
fn strips_full_marker_block_in_one_delta() {
    let mut s = HarmonyStripper::new();
    let mut got = s.process("<|channel>thought\n<channel|>Hello.");
    got.push_str(&s.flush());
    assert_eq!(got, "Hello.");
}

#[test]
fn drops_block_with_no_after_content() {
    let mut s = HarmonyStripper::new();
    let mut got = s.process("<|channel>thought\n<channel|>");
    got.push_str(&s.flush());
    assert_eq!(got, "");
}

#[test]
fn marker_split_across_deltas_open() {
    let mut s = HarmonyStripper::new();
    // Open marker split: "<|cha" then "nnel>thought<channel|>Hi."
    let a = s.process("<|cha");
    let b = s.process("nnel>thought<channel|>Hi.");
    let c = s.flush();
    assert_eq!(a + &b + &c, "Hi.");
}

#[test]
fn marker_split_across_deltas_close() {
    let mut s = HarmonyStripper::new();
    let a = s.process("<|channel>thought<chan");
    let b = s.process("nel|>Hi.");
    let c = s.flush();
    assert_eq!(a + &b + &c, "Hi.");
}

#[test]
fn multiple_thought_blocks_in_one_stream() {
    let mut s = HarmonyStripper::new();
    let mut got = s.process("<|channel>a<channel|>middle.<|channel>b<channel|>end.");
    got.push_str(&s.flush());
    assert_eq!(got, "middle.end.");
}

#[test]
fn content_before_first_marker_is_preserved() {
    let mut s = HarmonyStripper::new();
    let mut got = s.process("Pre.<|channel>thought\n<channel|>Post.");
    got.push_str(&s.flush());
    assert_eq!(got, "Pre.Post.");
}

#[test]
fn streaming_one_byte_at_a_time_recovers_full_message() {
    let input = "<|channel>thought\n<channel|>The user is doop.";
    let mut s = HarmonyStripper::new();
    let mut out = String::new();
    for ch in input.chars() {
        let mut tmp = [0u8; 4];
        out.push_str(&s.process(ch.encode_utf8(&mut tmp)));
    }
    out.push_str(&s.flush());
    assert_eq!(out, "The user is doop.");
}

#[test]
fn flush_discards_unterminated_thought() {
    let mut s = HarmonyStripper::new();
    let mut got = s.process("<|channel>thought without close");
    got.push_str(&s.flush());
    assert_eq!(got, "");
}

#[test]
fn symmetric_canonical_marker_pair() {
    let mut s = HarmonyStripper::new();
    let mut got = s.process("<|channel|>thought<|channel|>Final.");
    got.push_str(&s.flush());
    assert_eq!(got, "Final.");
}

#[test]
fn strip_full_helper() {
    let cleaned = HarmonyStripper::strip_full("<|channel>thought\n<channel|>The user is doop.");
    assert_eq!(cleaned, "The user is doop.");
}

#[test]
fn empty_delta_is_noop() {
    let mut s = HarmonyStripper::new();
    assert_eq!(s.process(""), "");
    assert_eq!(s.flush(), "");
}

#[test]
fn utf8_in_content_does_not_split_codepoints() {
    let mut s = HarmonyStripper::new();
    // 'é' is two bytes; if MAX_MARKER_LEN tail-clip lands inside it the
    // safe_split_at helper must back up to the previous char boundary.
    let mut got = s.process("café résumé naïve");
    got.push_str(&s.flush());
    assert_eq!(got, "café résumé naïve");
}

#[test]
fn every_way_of_cutting_the_input_gives_the_same_text() {
    let input = "a<|channel>t<channel|>b<|channel|>u<|channel|>cd";
    let whole = HarmonyStripper::strip_full(input);
    for i in 0..input.len() {
        for k in i..input.len() {
            let mut s = HarmonyStripper::new();
            let mut out = s.process(&input[..i]);
            out.push_str(&s.process(&input[i..k]));
            out.push_str(&s.process(&input[k..]));
            out.push_str(&s.flush());
            assert_eq!(out, whole, "cut at {i} and {k}");
        }
    }
    assert_eq!(whole, "abcd");
}

fn test_def(name: &str) -> AgentDef {
    AgentDef {
        name: name.into(),
        role: "test role".into(),
        team: "TestTeam".into(),
        focus: "testing".into(),
        trust_tier: "standard".into(),
        confirm_mode: "confirm".into(),
    }
}

#[test]
fn build_static_prompt_renders_template() {
    let prompt = build_static_prompt(
        Some(&test_def("myagent")),
        Some("You are {name}, {role}. Team: {team}."),
        Some("- Rule one.\n- Rule two."),
    )
    .unwrap();
    assert!(prompt.contains("You are myagent, test role."));
    assert!(prompt.contains("Team: TestTeam."));
    assert!(prompt.contains("Rule one."));
    assert!(prompt.contains("Rule two."));
}

#[test]
fn build_static_prompt_returns_none_for_missing_dir() {
    assert!(build_static_prompt(None, None, None).is_none());
}

#[test]
fn augment_user_input_prepends_context() {
    let aug = augment_user_input("what is X?", Some("past: X is Y"));
    assert!(aug.starts_with("[Context]\npast: X is Y\n\n---\n"));
    assert!(aug.ends_with("what is X?"));
}

#[test]
fn augment_user_input_passthrough_when_no_context() {
    let aug = augment_user_input("hello", None);
    assert_eq!(aug, "hello");
}

#[test]
fn augment_user_input_passthrough_when_empty_context() {
    let aug = augment_user_input("hello", Some(""));
    assert_eq!(aug, "hello");
}

#[test]
fn render_template_all_placeholders() {
    let def = AgentDef {
        name: "sage".into(),
        role: "vault helper".into(),
        team: "Utility".into(),
        focus: "filing".into(),
        trust_tier: "standard".into(),
        confirm_mode: "smart".into(),
    };
    let tmpl = "I am {name} ({role}), team {team}, focus {focus}, tier {trust_tier}.";
    let out = render_template(tmpl, &def);
    assert_eq!(
        out,
        "I am sage (vault helper), team Utility, focus filing, tier standard."
    );
}

#[test]
fn recall_queries_are_short() {
    let long = "x".repeat(100);
    let q = recall_query("sage", &long);
    assert!(q.contains(&"x".repeat(60)));
    assert!(!q.contains(&"x".repeat(61)));
    assert_eq!(recall_context(false, "past"), None);
    assert_eq!(recall_context(true, "  "), None);
    assert!(recall_context(true, "past\n").unwrap().contains("past"));
    assert_eq!(read_trimmed(Some(" a \n")), Some("a".to_string()));
    assert_eq!(read_trimmed(Some(" ")), None);
}

fn sample() -> AgentBridgeConfig {
    AgentBridgeConfig {
        agent: AgentSection { name: "sage".into() },
        backend: BackendSection {
            kind: BackendKind::OpenaiCompat,
            url: "http://localhost:8001/v1".into(),
            model: "gemma4-26b".into(),
            api_key_env: "LITELLM_API_KEY".into(),
        },
        prompt: PromptSection {
            system_file: "~/.config/voicectl/prompts/sage.md".into(),
            fallback_file: Some("~/.config/voicectl/prompts/system.md".into()),
        },
        tools: ToolsSection {
            vault_root: Some("~/Documents/Squinks".into()),
            enabled: vec!["read_file".into(), "grep".into()],
            ..ToolsSection::default()
        },
        bus: BusSection {
            nats_url: "nats://lnx-rig:4222".into(),
            user_env: default_user_env(),
            password_env: default_password_env(),
            subscribe_subject: "agent.dispatch.sage".into(),
            publish_prefix: "agent.event.sage".into(),
        },
        store: Some(StoreSection { db_path: "~/.local/state/agnt-bridge/sage.db".into() }),
        streaming: StreamingSection::default(),
        conversation: ConversationConfig::default(),
    }
}

#[test]
fn expand_tildes_resolves_home() {
    let mut cfg = sample();
    cfg.expand_tildes(Some("/home/x"));
    let prompt = cfg.prompt.system_file.clone();
    assert!(
        !prompt.starts_with("~"),
        "tilde should have been expanded, got {prompt}"
    );
    assert!(
        prompt.contains("/.config/voicectl/prompts/sage.md"),
        "unexpected expansion: {prompt}"
    );
    assert_eq!(prompt, "/home/x/.config/voicectl/prompts/sage.md");
    assert_eq!(cfg.store.unwrap().db_path, "/home/x/.local/state/agnt-bridge/sage.db");
}

#[test]
fn omitted_sections_have_defaults() {
    let cfg = sample();
    assert!(cfg.streaming.enabled);
    assert_eq!(cfg.conversation.session_timeout_ms, 600_000);
    assert_eq!(cfg.conversation.max_history_turns, 20);
    assert_eq!(cfg.bus.user_env, "NATS_USER");
    assert_eq!(cfg.bus.password_env, "NATS_PASSWORD");
    assert!(ToolsSection::default().enabled.is_empty());
    assert_eq!(
        AgentBridgeConfig::default_path(Some("/c"), "sage").as_deref(),
        Some("/c/voicectl/agents/sage.toml")
    );
}

#[test]
fn tool_settings_override_defaults() {
    let mut cfg = sample();
    let sc = build_system_tools_config(&cfg.tools, Some("/home/x"));
    assert_eq!(sc.memctl_bin, "/home/x/.local/bin/memctl");
    assert_eq!(sc.computer_use_safety.mode, SafetyMode::Confirm);
    cfg.tools.searxng_url = Some("http://s".into());
    cfg.tools.computer_use_safety = Some("smart".into());
    cfg.tools.computer_use_safe_keys = Some(vec!["Tab".into()]);
    let sc = build_system_tools_config(&cfg.tools, None);
    assert_eq!(sc.searxng_url, "http://s");
    assert_eq!(sc.computer_use_safety.mode, SafetyMode::Smart);
    assert_eq!(sc.computer_use_safety.safe_keys, vec!["Tab".to_string()]);
    cfg.tools.computer_use_safety = Some("paranoid".into());
    let sc = build_system_tools_config(&cfg.tools, None);
    assert_eq!(sc.computer_use_safety.mode, SafetyMode::Confirm);
}

#[test]
fn enabled_names_are_told_apart() {
    let sc = build_system_tools_config(&sample().tools, None);
    assert!(matches!(choose_tool("read_file", &sc, false), ToolChoice::ReadFile));
    assert!(matches!(choose_tool("grep", &sc, false), ToolChoice::Grep));
    assert!(matches!(choose_tool("open_app", &sc, false), ToolChoice::System(_)));
    assert!(matches!(choose_tool("dispatch_agent", &sc, false), ToolChoice::NoBus));
    assert!(matches!(choose_tool("dispatch_agent", &sc, true), ToolChoice::System(_)));
    assert!(matches!(choose_tool("nope", &sc, true), ToolChoice::Unknown));
    let all = choose_tools(&vec!["grep".into(), "nope".into()], &sc, true);
    assert!(matches!(all[0], ToolChoice::Grep));
    assert!(matches!(all[1], ToolChoice::Unknown));
}

#[test]
fn a_backend_needs_its_key() {
    let cfg = sample();
    let err = build_openai(&cfg.backend, None).err().unwrap();
    assert_eq!(
        err,
        "env var 'LITELLM_API_KEY' (backend.api_key_env) is not set; agnt-bridge refuses to \
         default to a baked-in key."
    );
    let b = build_openai(&cfg.backend, Some("k")).ok().unwrap();
    assert_eq!(b.base_url, "http://localhost:8001/v1");
    assert_eq!(b.model, "gemma4-26b");
}

#[test]
fn prompts_fall_back() {
    let p = sample().prompt;
    assert_eq!(prompt_source(true, Some(true)), PromptSource::Primary);
    assert_eq!(prompt_source(false, Some(true)), PromptSource::Fallback);
    assert_eq!(prompt_source(false, Some(false)), PromptSource::Nothing);
    assert_eq!(prompt_source(false, None), PromptSource::Nothing);
    assert_eq!(read_prompt(PromptSource::Primary, &p, Some(" hi \n")).unwrap(), "hi");
    assert_eq!(read_prompt(PromptSource::Nothing, &p, None).unwrap(), "");
    assert!(read_prompt(PromptSource::Fallback, &p, None)
        .unwrap_err()
        .starts_with("read fallback_file "));
    assert_eq!(cancel_subject("sage"), "agent.cancel.sage");
}

fn agent_with_turns(n: usize) -> Agent {
    let mut a = Agent::new("sys");
    for i in 0..n {
        a.messages.push(Message::plain("user", &format!("q{i}")));
        a.messages.push(Message::plain("assistant", &format!("a{i}")));
    }
    a
}

#[test]
fn trimming_keeps_whole_turns() {
    let mut a = agent_with_turns(5);
    trim_history_to_turns(&mut a, 2);
    let texts: Vec<&str> = a.messages.iter().map(|m| m.content.as_deref().unwrap()).collect();
    assert_eq!(texts, vec!["sys", "q3", "a3", "q4", "a4"]);
    let mut b = agent_with_turns(2);
    trim_history_to_turns(&mut b, 0);
    assert_eq!(b.messages.len(), 5);
}

#[test]
fn rotation_keeps_the_system_prompt() {
    let mut a = agent_with_turns(3);
    rotate_agent_session(&mut a, "s2");
    assert_eq!(a.messages.len(), 1);
    assert_eq!(a.session, "s2");
    let mut b = agent_with_turns(3);
    prepare_step(&mut b, &SessionDirective::Reuse, 1);
    assert_eq!(b.messages.len(), 3);
    prepare_step(&mut b, &SessionDirective::Rotate("s3".into()), 1);
    assert_eq!(b.messages.len(), 1);
    assert_eq!(b.session, "s3");
}

fn dispatch(input: &str) -> AgentDispatch {
    AgentDispatch {
        request_id: RequestId(9),
        user_input: input.into(),
        context: None,
        reply_to: "agent.response.sage.9".into(),
    }
}

#[test]
fn a_dispatch_streams_and_replies() {
    let mut session = SessionState::new();
    let started =
        start_dispatch("sage", true, 60 * SECOND, &mut session, &dispatch("hello"), 5 * SECOND);
    let mut run = match started {
        DispatchStart::Run { run, .. } => run,
        DispatchStart::Refused { .. } => panic!("the dispatch has to run"),
    };
    assert_eq!(run.token_subject, token_subject("sage", &RequestId(9)));
    assert!(run.clean_delta("<|channel>t").is_none());
    let text = run.clean_delta("<channel|>Hello there, this is it.").unwrap();
    assert!(text.starts_with("Hello"));
    let first = run.next_frame(text.clone());
    assert_eq!(first.idx, 0);
    assert!(!first.is_final);
    let mut all = text;
    if let Some(tail) = run.flush_tail() {
        let frame = run.next_frame(tail.clone());
        assert_eq!(frame.idx, 1);
        all.push_str(&tail);
    }
    assert_eq!(all, "Hello there, this is it.");
    assert!(run.final_frame().unwrap().is_final);
    let outcome = outcome_of(Ok("<|channel>t<channel|>Done.".into()), 3, vec!["grep".into()]);
    let reply = run.reply(Ok(outcome), &mut session, 6 * SECOND);
    assert!(reply.ok);
    assert_eq!(reply.text, "Done.");
    assert_eq!(reply.tool_calls, vec!["grep".to_string()]);
    assert_eq!(session.last_message_at, Some(6 * SECOND));
}

#[test]
fn failures_are_replied() {
    let outcome = outcome_of(Err("boom".into()), 3, vec![]);
    assert!(!outcome.ok);
    assert_eq!(outcome.error.as_deref(), Some("agent.step failed: boom"));
    let cancelled = cancel_reply(RequestId(4));
    assert!(!cancelled.ok);
    assert_eq!(cancelled.error.as_deref(), Some("cancelled"));
}

#[test]
fn cancelling_looks_at_the_request() {
    let flight = (RequestId(1), "reply".to_string());
    let cancel = |request_id: Option<RequestId>, all: bool| AgentCancel { request_id, all };
    assert!(cancel_target(Some(&flight), &cancel(None, false)).is_some());
    assert!(cancel_target(Some(&flight), &cancel(Some(RequestId(1)), false)).is_some());
    assert!(cancel_target(Some(&flight), &cancel(Some(RequestId(2)), false)).is_none());
    assert!(cancel_target(Some(&flight), &cancel(Some(RequestId(2)), true)).is_some());
    assert!(cancel_target(None, &cancel(None, true)).is_none());
    assert!(clears_in_flight(Some(&flight), RequestId(1)));
    assert!(!clears_in_flight(Some(&flight), RequestId(2)));
}

#[test]
fn tool_names_are_logged() {
    let mut o = ToolObserver::new();
    o.on_tool_start(&ToolCall {
        id: "1".into(),
        call_type: "function".into(),
        function: FunctionCall { name: "grep".into(), arguments: "{}".into() },
    });
    assert_eq!(o.log, vec!["grep".to_string()]);
}
