use agnt::json::parse;
use agnt::tools::desktop::{
    check_scheme, desktop_stem, fuzzy_desktop_id, launch_outcome, parse_entry, try_screenshot, validate_url,
    ClipboardGet, CurrentWindow, DesktopFile, Notification, NotificationArgs, OpenApp, OpenAppArgs,
    OpenUrl, OpenUrlArgs, Screenshot,
};
use agnt::tools::dispatch::{clamp_timeout, valid_agent_name, DispatchAgent, MAX_TIMEOUT_MS};
use agnt::tools::memory::{validate_kind, validate_scope, MemctlIngest, MemctlRecall};
use agnt::tools::shell::CmdOutput;
use agnt::tools::toolset::{all_tools, build_tool, build_tools, SystemTool, SystemToolsConfig};
use agnt::wire::{AgentReply, RequestId};

fn output(stdout: &str, stderr: &str, status_ok: bool) -> CmdOutput {
    CmdOutput { stdout: stdout.into(), stderr: stderr.into(), status_ok }
}

#[test]
fn url_validator_accepts_http_and_https_and_mailto() {
    assert!(validate_url("http://example.com").is_ok());
    assert!(validate_url("https://example.com/path?q=1").is_ok());
    assert!(validate_url("mailto:foo@example.com").is_ok());
}

#[test]
fn url_validator_rejects_file_scheme() {
    let err = validate_url("file:///etc/passwd").unwrap_err();
    assert!(err.contains("file") || err.contains("not allowed"), "{err}");
}

#[test]
fn url_validator_rejects_javascript_and_data() {
    assert!(validate_url("javascript:alert(1)").is_err());
    assert!(validate_url("data:text/html,foo").is_err());
    assert!(validate_url("ftp://example.com").is_err());
}

#[test]
fn url_validator_rejects_garbage() {
    assert!(validate_url("not a url").is_err());
}

#[test]
fn schemes_are_checked_on_their_own() {
    assert!(check_scheme(&Ok("https".into())).is_ok());
    assert!(check_scheme(&Ok("ssh".into())).unwrap_err().contains("ssh"));
    assert!(check_scheme(&Err("relative URL without a base".into()))
        .unwrap_err()
        .contains("relative URL without a base"));
}

#[test]
fn open_app_rejects_empty_name() {
    let err = OpenApp.call(&OpenAppArgs { name: "  ".into() }).unwrap_err();
    assert!(err.contains("empty"), "{err}");
}

#[test]
fn open_app_tries_the_name_first() {
    let run = OpenApp.call(&OpenAppArgs { name: " firefox ".into() }).unwrap();
    assert_eq!(run.name, "firefox");
    let done = run.direct(&Ok(output("", "", true))).unwrap();
    assert_eq!(done.launched, "firefox");
    assert!(run.direct(&Ok(output("", "no such entry", false))).is_none());
    assert!(run.direct(&Err("not installed".into())).is_none());
    assert!(launch_outcome(&Ok(output("", "", true))).is_none());
    let similar = run.similar("org.mozilla.firefox", &Ok(output("", "", true))).unwrap();
    assert_eq!(similar.launched, "org.mozilla.firefox");
    assert!(run.similar("org.mozilla.firefox", &Ok(output("", "broken", false))).is_err());
    assert!(run.not_found().contains("firefox"));
}

fn entry(stem: &str, contents: &str) -> DesktopFile {
    DesktopFile { stem: stem.into(), contents: contents.into() }
}

fn installed() -> Vec<DesktopFile> {
    vec![
        entry("org.gnome.Nautilus", "[Desktop Entry]\nName=Files\nCategories=GNOME;FileManager;\n"),
        entry("firefox", "[Desktop Entry]\nName=Firefox Web Browser\nCategories=Network;WebBrowser;\n"),
        entry("firefox-safe", "[Desktop Entry]\nName=Firefox\nNoDisplay=true\n"),
    ]
}

#[test]
fn fuzzy_desktop_id_returns_none_for_garbage() {
    let id = fuzzy_desktop_id("zzzzz-no-such-app-zzzzz-zzzzz", &installed());
    assert!(id.is_none(), "unexpected match: {id:?}");
}

#[test]
fn an_exact_stem_wins_over_other_entries() {
    assert_eq!(fuzzy_desktop_id("firefox", &installed()).as_deref(), Some("firefox"));
    assert_eq!(
        fuzzy_desktop_id("files", &installed()).as_deref(),
        Some("org.gnome.Nautilus")
    );
    assert_eq!(fuzzy_desktop_id("browser", &installed()).as_deref(), Some("firefox"));
    assert_eq!(fuzzy_desktop_id("anything", &vec![]), None);
}

#[test]
fn desktop_entries_are_told_by_their_names() {
    assert_eq!(desktop_stem("org.gnome.Files.desktop").as_deref(), Some("org.gnome.Files"));
    assert_eq!(desktop_stem(".desktop"), None);
    assert_eq!(desktop_stem("mimeinfo.cache"), None);
}

#[test]
fn desktop_entries_are_read() {
    let e = parse_entry("[Desktop Entry]\nName=Files\nCategories=GNOME;FileManager;\nNoDisplay=true\n");
    assert_eq!(e.name.as_deref(), Some("Files"));
    assert!(e.categories.iter().any(|c| c.eq_ignore_ascii_case("FileManager")));
    assert!(e.hidden);
}

#[test]
fn opening_a_url_reports_failures() {
    let args = OpenUrlArgs { url: "https://example.com".into() };
    assert_eq!(OpenUrl.finish(&args, &output("", "", true)).unwrap().opened, "https://example.com");
    assert!(OpenUrl.finish(&args, &output("", "no browser", false)).unwrap_err().contains("no browser"));
}

#[test]
fn notifications_need_a_title() {
    let none = NotificationArgs { title: " ".into(), body: None };
    assert!(Notification.call(&none).is_err());
    let some = NotificationArgs { title: "done".into(), body: Some("all of it".into()) };
    let argv = Notification.call(&some).unwrap();
    assert!(argv.contains(&"done".to_string()));
    assert!(argv.contains(&"all of it".to_string()));
    assert!(Notification.finish(&output("", "", true)).unwrap().sent);
    assert!(Notification.finish(&output("", "no daemon", false)).is_err());
}

#[test]
fn the_current_window_is_trimmed() {
    let w = CurrentWindow.call(&output(" shell \n", "", true), &output("kitty\n", "", true));
    assert_eq!(w.title, "shell");
    assert_eq!(w.wm_class, "kitty");
}

#[test]
fn screenshots_lie_in_the_cache() {
    let s = Screenshot::new("/cache".into());
    assert!(s.screenshots_dir().starts_with("/cache/"));
    let path = s.path_for("20240101-000000");
    assert!(path.starts_with(&s.screenshots_dir()), "{path}");
    assert!(path.ends_with(".png"), "{path}");
    assert!(s.finish(&path, true, false).is_ok());
    assert!(s.finish(&path, false, true).is_ok());
    assert!(s.finish(&path, false, false).is_err());
    assert!(try_screenshot(&output("", "", true)).is_ok());
    assert!(try_screenshot(&output("", "no display", false)).is_err());
}

#[test]
fn the_clipboard_is_capped() {
    let small = ClipboardGet.call(&output("copied", "", true)).unwrap();
    assert_eq!(small.text, "copied");
    assert!(!small.truncated);
    let large = ClipboardGet.call(&output(&"x".repeat(5000), "", true)).unwrap();
    assert!(large.truncated);
    assert!(large.text.starts_with(&"x".repeat(4096)));
    assert!(large.text.ends_with("…[truncated; clipboard exceeded 4KB cap]"));
    assert_eq!(ClipboardGet.call(&output("", " ", false)).unwrap().text, "");
    assert!(ClipboardGet.call(&output("", "broken", false)).unwrap_err().contains("broken"));
}

#[test]
fn rejects_empty_agent_name() {
    let args = parse("{\"agent_name\": \"\", \"task\": \"ping\", \"timeout_ms\": 100}").unwrap();
    let agent_name = args.text_field("agent_name").unwrap().to_string();
    assert!(agent_name.is_empty());
    assert!(DispatchAgent.call(&args).is_err());
}

#[test]
fn agent_name_charset_rejected() {
    let bad = ["foo.bar", "foo bar", "foo*", "foo/bar", "foo>"];
    for n in bad {
        assert!(!valid_agent_name(n), "expected '{n}' to be rejected");
    }
    for n in ["foo", "foo-bar", "foo_bar", "axiom-proof123"] {
        assert!(valid_agent_name(n));
    }
}

#[test]
fn timeout_clamping_bounds() {
    let too_small = clamp_timeout(0);
    assert_eq!(too_small, 100);
    let too_big = clamp_timeout(MAX_TIMEOUT_MS + 1);
    assert_eq!(too_big, MAX_TIMEOUT_MS);
}

#[test]
fn a_task_is_handed_over() {
    let args = parse("{\"agent_name\": \"sage\", \"task\": \"ping\"}").unwrap();
    let plan = DispatchAgent.call(&args).unwrap();
    assert_eq!(plan.timeout_ms, 30_000);
    assert_eq!(plan.subject(), "agent.dispatch.sage");
    let id = RequestId(3);
    let envelope = plan.envelope(id);
    assert_eq!(envelope.request_id, id);
    assert_eq!(envelope.user_input, "ping");
    assert!(!envelope.reply_to.is_empty());
    let mut reply = AgentReply {
        request_id: id,
        ok: true,
        text: "pong".into(),
        tokens: 1,
        duration_ms: 2,
        tool_calls: vec![],
        error: None,
    };
    assert!(plan.take_reply(&reply).unwrap().contains("pong"));
    reply.ok = false;
    reply.error = Some("lost".into());
    assert!(plan.take_reply(&reply).unwrap_err().contains("lost"));
    assert!(plan.timed_out().contains("30000"));
}

#[test]
fn allowed_kinds_match_spec() {
    for k in [
        "decision",
        "fact",
        "error",
        "correction",
        "pattern",
        "insight",
    ] {
        assert!(validate_kind(k).is_ok(), "kind {k} should be allowed");
    }
}

#[test]
fn rejects_bad_kind() {
    let err = validate_kind("nope").unwrap_err();
    assert!(err.contains("nope"), "{err}");
}

#[test]
fn rejects_bad_scope() {
    let err = validate_scope("session").unwrap_err();
    assert!(err.contains("session"), "{err}");
}

#[test]
fn allowed_scopes_match_spec() {
    for s in ["project", "global"] {
        assert!(validate_scope(s).is_ok());
    }
}

#[test]
fn ingest_rejects_missing_content() {
    let tool = MemctlIngest::new("/bin/true".into());
    let err = tool
        .call(&parse("{\"kind\": \"fact\", \"scope\": \"project\"}").unwrap())
        .unwrap_err();
    assert!(err.contains("content"), "{err}");
}

#[test]
fn ingest_rejects_bad_kind_via_call() {
    let tool = MemctlIngest::new("/bin/true".into());
    let err = tool
        .call(&parse("{\"content\": \"x\", \"kind\": \"junk\", \"scope\": \"project\"}").unwrap())
        .unwrap_err();
    assert!(err.contains("junk") || err.contains("kind"), "{err}");
}

#[test]
fn ingest_rejects_bad_scope_via_call() {
    let tool = MemctlIngest::new("/bin/true".into());
    let err = tool
        .call(&parse("{\"content\": \"x\", \"kind\": \"fact\", \"scope\": \"session\"}").unwrap())
        .unwrap_err();
    assert!(err.contains("session") || err.contains("scope"), "{err}");
}

#[test]
fn recall_rejects_empty_query() {
    let tool = MemctlRecall::new("/bin/true".into());
    let err = tool.call(&parse("{\"query\": \"  \"}").unwrap()).unwrap_err();
    assert!(err.contains("empty"), "{err}");
}

#[test]
fn memories_become_arguments() {
    let tool = MemctlIngest::new("/bin/true".into());
    let m = tool
        .call(&parse("{\"content\": \"x\", \"kind\": \"fact\", \"scope\": \"project\"}").unwrap())
        .unwrap();
    let argv = m.argv();
    for a in ["x", "fact", "project"] {
        assert!(argv.contains(&a.to_string()), "{argv:?}");
    }
    assert!(tool.finish(&m, &output("stored", "", true)).is_ok());
    assert!(tool.finish(&m, &output("", "full", false)).unwrap_err().contains("full"));
    let recall = MemctlRecall::new("/bin/true".into());
    assert_eq!(recall.bin(), "/bin/true");
    let argv = recall.call(&parse("{\"query\": \"rust\"}").unwrap()).unwrap();
    assert_eq!(argv, vec!["recall", "--limit", "5", "rust"]);
    let many = parse("{\"query\": \"rust\", \"limit\": 4294967296}").unwrap();
    assert_eq!(recall.call(&many).unwrap()[2], "20");
}

#[test]
fn all_tools_constants_match_build_tool() {
    let cfg = SystemToolsConfig::default();
    // Bus-dependent tools — confirm publish channel, agent dispatch, or vzn vision.
    let needs_bus = [
        "dispatch_agent",
        "click",
        "type_text",
        "key_combo",
        "scroll",
        "focus_window",
        "look_at_screen",
    ];
    for name in all_tools() {
        if needs_bus.contains(&name.as_str()) {
            continue;
        }
        assert!(
            build_tool(&name, &cfg, false).is_some(),
            "build_tool({name}) returned None — ALL_TOOLS is out of sync"
        );
    }
}

#[test]
fn bus_required_tools_refuse_without_bus() {
    let cfg = SystemToolsConfig::default();
    for name in [
        "click",
        "type_text",
        "key_combo",
        "scroll",
        "focus_window",
        "look_at_screen",
    ] {
        assert!(
            build_tool(name, &cfg, false).is_none(),
            "{name} should refuse to build without a Bus"
        );
    }
    // get_mouse is read-only and works without a bus.
    assert!(build_tool("get_mouse", &cfg, false).is_some());
}

#[test]
fn unknown_tool_is_reported() {
    let cfg = SystemToolsConfig::default();
    let names = vec!["open_app".to_string(), "nope".to_string()];
    let (tools, unknown) = build_tools(&names, &cfg, false);
    assert_eq!(tools.len(), 1);
    assert_eq!(unknown, vec!["nope".to_string()]);
}

#[test]
fn every_listed_tool_is_built_with_a_bus() {
    let cfg = SystemToolsConfig::for_home("/home/x");
    assert_eq!(cfg.cache_dir, "/home/x/.cache/voicectl");
    let (tools, unknown) = build_tools(&all_tools(), &cfg, true);
    assert_eq!(tools.len(), 17);
    assert!(unknown.is_empty());
    match &tools[4] {
        SystemTool::Screenshot(s) => {
            assert!(s.screenshots_dir().starts_with("/home/x/.cache/voicectl"))
        }
        _ => panic!("the fifth tool takes screenshots"),
    }
}
