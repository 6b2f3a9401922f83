//! Which tools an agent gets.
use vstd::prelude::*;
use vstd::string::*;
use crate::paths::{home_dir, join_path, joined};
use crate::pieces::{copy_texts, lemma_texts_push};
use crate::search::texts;
use crate::text::{copy, same};
use crate::tools::computer::{
    navigation_keys, typing_apps, Click, FocusWindow, GetMouse, KeyCombo, SafetyMode, SafetyPolicy,
    Scroll, TypeText,
};
use crate::tools::desktop::{
    ClipboardGet, CurrentWindow, Notification, OpenApp, OpenUrl, Screenshot,
};
use crate::tools::dispatch::DispatchAgent;
use crate::tools::memory::{MemctlIngest, MemctlRecall};
use crate::tools::search::{SearchConfig, WebSearch};
use crate::tools::vision::{LookAtScreen, VisionConfig, DEFAULT_VISION_MODEL, DEFAULT_VISION_URL};

verus! {

/// Configuration of the tools.
#[derive(Debug)]
pub struct SystemToolsConfig {
    pub searxng_url: String,
    pub memctl_bin: String,
    pub cache_dir: String,
    pub computer_use_safety: SafetyPolicy,
}

impl SystemToolsConfig {
    /// It is the default configuration of a user with this home directory.
    pub open spec fn is_for(&self, home: Seq<char>) -> bool {
        &&& self.searxng_url@ == "http://lnx-rig:8888"@
        &&& self.memctl_bin@ == joined(home, ".local/bin/memctl"@)
        &&& self.cache_dir@ == joined(home, ".cache/voicectl"@)
        &&& self.computer_use_safety.mode == SafetyMode::Confirm
        &&& texts(self.computer_use_safety.safe_keys@) == navigation_keys()
        &&& texts(self.computer_use_safety.safe_focus_apps@) == typing_apps()
    }

    /// The default configuration of a user with this home directory.
    pub fn for_home(home: &str) -> (r: SystemToolsConfig)
        ensures
            r.is_for(home@),
    {
        SystemToolsConfig {
            searxng_url: copy("http://lnx-rig:8888"),
            memctl_bin: join_path(home, ".local/bin/memctl"),
            cache_dir: join_path(home, ".cache/voicectl"),
            computer_use_safety: SafetyPolicy::default(),
        }
    }
}

/// The configuration of the current user; of the root directory where there is no
/// home.
impl Default for SystemToolsConfig {
    fn default() -> (r: SystemToolsConfig)
        ensures
            exists|home: Seq<char>| r.is_for(home),
    {
        match home_dir() {
            Some(h) => SystemToolsConfig::for_home(h.as_str()),
            None => SystemToolsConfig::for_home("/"),
        }
    }
}

/// The names of all tools.
pub open spec fn tool_names() -> Seq<Seq<char>> {
    seq![
        "open_app"@,
        "open_url"@,
        "notification"@,
        "current_window"@,
        "screenshot"@,
        "clipboard_get"@,
        "web_search"@,
        "memctl_recall"@,
        "memctl_ingest"@,
        "dispatch_agent"@,
        "click"@,
        "type_text"@,
        "key_combo"@,
        "scroll"@,
        "focus_window"@,
        "get_mouse"@,
        "look_at_screen"@,
    ]
}

/// The tools that talk to others over the bus: to ask for approval, to hand over
/// a task, or to reach the vision service.
pub open spec fn needs_bus(name: Seq<char>) -> bool {
    name == "dispatch_agent"@ || name == "click"@ || name == "type_text"@ || name == "key_combo"@
        || name == "scroll"@ || name == "focus_window"@ || name == "look_at_screen"@
}

/// The tools that work without the bus.
pub open spec fn stands_alone(name: Seq<char>) -> bool {
    name == "open_app"@ || name == "open_url"@ || name == "notification"@ || name
        == "current_window"@ || name == "screenshot"@ || name == "clipboard_get"@ || name
        == "web_search"@ || name == "memctl_recall"@ || name == "memctl_ingest"@ || name
        == "get_mouse"@
}

/// A tool with what it needs to know.
pub enum SystemTool {
    OpenApp(OpenApp),
    OpenUrl(OpenUrl),
    Notification(Notification),
    CurrentWindow(CurrentWindow),
    Screenshot(Screenshot),
    ClipboardGet(ClipboardGet),
    WebSearch(WebSearch),
    MemctlRecall(MemctlRecall),
    MemctlIngest(MemctlIngest),
    DispatchAgent(DispatchAgent),
    Click(Click),
    TypeText(TypeText),
    KeyCombo(KeyCombo),
    Scroll(Scroll),
    FocusWindow(FocusWindow),
    GetMouse(GetMouse),
    LookAtScreen(LookAtScreen),
}

/// The policies agree.
pub open spec fn same_policy(a: SafetyPolicy, b: SafetyPolicy) -> bool {
    &&& a.mode == b.mode
    &&& texts(a.safe_keys@) == texts(b.safe_keys@)
    &&& texts(a.safe_focus_apps@) == texts(b.safe_focus_apps@)
}

/// The tool of a name, set up from a configuration.
pub open spec fn is_tool(t: SystemTool, name: Seq<char>, cfg: SystemToolsConfig) -> bool {
    match t {
        SystemTool::OpenApp(_) => name == "open_app"@,
        SystemTool::OpenUrl(_) => name == "open_url"@,
        SystemTool::Notification(_) => name == "notification"@,
        SystemTool::CurrentWindow(_) => name == "current_window"@,
        SystemTool::Screenshot(x) => name == "screenshot"@ && x.cache() == cfg.cache_dir@,
        SystemTool::ClipboardGet(_) => name == "clipboard_get"@,
        SystemTool::WebSearch(x) => name == "web_search"@ && x.base() == cfg.searxng_url@,
        SystemTool::MemctlRecall(x) => name == "memctl_recall"@ && x.program() == cfg.memctl_bin@,
        SystemTool::MemctlIngest(x) => name == "memctl_ingest"@ && x.program() == cfg.memctl_bin@,
        SystemTool::DispatchAgent(_) => name == "dispatch_agent"@,
        SystemTool::Click(x) => name == "click"@ && same_policy(x.policy, cfg.computer_use_safety),
        SystemTool::TypeText(x) => name == "type_text"@ && same_policy(
            x.policy,
            cfg.computer_use_safety,
        ),
        SystemTool::KeyCombo(x) => name == "key_combo"@ && same_policy(
            x.policy,
            cfg.computer_use_safety,
        ),
        SystemTool::Scroll(x) => name == "scroll"@ && same_policy(
            x.policy,
            cfg.computer_use_safety,
        ),
        SystemTool::FocusWindow(x) => name == "focus_window"@ && same_policy(
            x.policy,
            cfg.computer_use_safety,
        ),
        SystemTool::GetMouse(_) => name == "get_mouse"@,
        SystemTool::LookAtScreen(x) => name == "look_at_screen"@ && x.config().cache_dir@
            == cfg.cache_dir@ && x.config().url@ == DEFAULT_VISION_URL@ && x.config().model@
            == DEFAULT_VISION_MODEL@,
    }
}

fn copy_policy(p: &SafetyPolicy) -> (r: SafetyPolicy)
    ensures
        same_policy(r, *p),
{
    SafetyPolicy {
        mode: p.mode,
        safe_keys: copy_texts(&p.safe_keys),
        safe_focus_apps: copy_texts(&p.safe_focus_apps),
    }
}

/// The names of all tools.
pub fn all_tools() -> (r: Vec<String>)
    ensures
        texts(r@) == tool_names(),
{
    let mut v: Vec<String> = Vec::new();
    v.push(copy("open_app"));
    v.push(copy("open_url"));
    v.push(copy("notification"));
    v.push(copy("current_window"));
    v.push(copy("screenshot"));
    v.push(copy("clipboard_get"));
    v.push(copy("web_search"));
    v.push(copy("memctl_recall"));
    v.push(copy("memctl_ingest"));
    v.push(copy("dispatch_agent"));
    v.push(copy("click"));
    v.push(copy("type_text"));
    v.push(copy("key_combo"));
    v.push(copy("scroll"));
    v.push(copy("focus_window"));
    v.push(copy("get_mouse"));
    v.push(copy("look_at_screen"));
    assert(texts(v@) =~= tool_names());
    v
}

fn build_alone(name: &str, cfg: &SystemToolsConfig) -> (r: Option<SystemTool>)
    ensures
        match r {
            Some(t) => stands_alone(name@) && is_tool(t, name@, *cfg),
            None => !stands_alone(name@),
        },
{
    if same(name, "open_app") {
        Some(SystemTool::OpenApp(OpenApp))
    } else if same(name, "open_url") {
        Some(SystemTool::OpenUrl(OpenUrl))
    } else if same(name, "notification") {
        Some(SystemTool::Notification(Notification))
    } else if same(name, "current_window") {
        Some(SystemTool::CurrentWindow(CurrentWindow))
    } else if same(name, "screenshot") {
        Some(SystemTool::Screenshot(Screenshot::new(copy(cfg.cache_dir.as_str()))))
    } else if same(name, "clipboard_get") {
        Some(SystemTool::ClipboardGet(ClipboardGet))
    } else if same(name, "web_search") {
        Some(
            SystemTool::WebSearch(
                WebSearch::new(SearchConfig { searxng_url: copy(cfg.searxng_url.as_str()) }),
            ),
        )
    } else if same(name, "memctl_recall") {
        Some(SystemTool::MemctlRecall(MemctlRecall::new(copy(cfg.memctl_bin.as_str()))))
    } else if same(name, "memctl_ingest") {
        Some(SystemTool::MemctlIngest(MemctlIngest::new(copy(cfg.memctl_bin.as_str()))))
    } else if same(name, "get_mouse") {
        Some(SystemTool::GetMouse(GetMouse))
    } else {
        None
    }
}

fn build_on_bus(name: &str, cfg: &SystemToolsConfig) -> (r: Option<SystemTool>)
    ensures
        match r {
            Some(t) => needs_bus(name@) && is_tool(t, name@, *cfg),
            None => !needs_bus(name@),
        },
{
    if same(name, "dispatch_agent") {
        Some(SystemTool::DispatchAgent(DispatchAgent))
    } else if same(name, "click") {
        Some(SystemTool::Click(Click { policy: copy_policy(&cfg.computer_use_safety) }))
    } else if same(name, "type_text") {
        Some(SystemTool::TypeText(TypeText { policy: copy_policy(&cfg.computer_use_safety) }))
    } else if same(name, "key_combo") {
        Some(SystemTool::KeyCombo(KeyCombo { policy: copy_policy(&cfg.computer_use_safety) }))
    } else if same(name, "scroll") {
        Some(SystemTool::Scroll(Scroll { policy: copy_policy(&cfg.computer_use_safety) }))
    } else if same(name, "focus_window") {
        Some(SystemTool::FocusWindow(FocusWindow { policy: copy_policy(&cfg.computer_use_safety) }))
    } else if same(name, "look_at_screen") {
        Some(
            SystemTool::LookAtScreen(
                LookAtScreen::new(
                    VisionConfig {
                        url: copy(DEFAULT_VISION_URL),
                        model: copy(DEFAULT_VISION_MODEL),
                        cache_dir: copy(cfg.cache_dir.as_str()),
                    },
                ),
            ),
        )
    } else {
        None
    }
}

/// The tool of a name. A tool that needs the bus is not given without one.
pub fn build_tool(name: &str, cfg: &SystemToolsConfig, has_bus: bool) -> (r: Option<SystemTool>)
    ensures
        match r {
            Some(t) => (stands_alone(name@) || (has_bus && needs_bus(name@))) && is_tool(
                t,
                name@,
                *cfg,
            ),
            None => !stands_alone(name@) && !(has_bus && needs_bus(name@)),
        },
{
    match build_alone(name, cfg) {
        Some(t) => Some(t),
        None => if has_bus {
            build_on_bus(name, cfg)
        } else {
            None
        },
    }
}

/// The names that give a tool, or those that do not.
pub open spec fn names_that(names: Seq<Seq<char>>, has_bus: bool, give: bool) -> Seq<Seq<char>>
    decreases names.len(),
{
    if names.len() == 0 {
        Seq::empty()
    } else {
        let before = names_that(names.drop_last(), has_bus, give);
        let n = names.last();
        if (stands_alone(n) || (has_bus && needs_bus(n))) == give {
            before.push(n)
        } else {
            before
        }
    }
}

/// The tools of some names, and the names that give none.
pub fn build_tools(names: &Vec<String>, cfg: &SystemToolsConfig, has_bus: bool) -> (r: (
    Vec<SystemTool>,
    Vec<String>,
))
    ensures
        ({
            let given = names_that(texts(names@), has_bus, true);
            &&& r.0@.len() == given.len()
            &&& forall|i: int| 0 <= i < r.0@.len() ==> is_tool(#[trigger] r.0@[i], given[i], *cfg)
            &&& texts(r.1@) == names_that(texts(names@), has_bus, false)
        }),
{
    let mut tools: Vec<SystemTool> = Vec::new();
    let mut unknown: Vec<String> = Vec::new();
    let n: usize = names.len();
    let mut i: usize = 0;
    let ghost all = texts(names@);
    assert(all.take(0) =~= Seq::empty());
    assert(texts(unknown@) =~= Seq::empty());
    while i < n
        invariant
            i <= n,
            n == names@.len(),
            all == texts(names@),
            tools@.len() == names_that(all.take(i as int), has_bus, true).len(),
            forall|k: int|
                0 <= k < tools@.len() ==> is_tool(
                    #[trigger] tools@[k],
                    names_that(all.take(i as int), has_bus, true)[k],
                    *cfg,
                ),
            texts(unknown@) == names_that(all.take(i as int), has_bus, false),
        decreases n - i,
    {
        proof {
            assert(all.take(i as int + 1).drop_last() =~= all.take(i as int));
            assert(all[i as int] == names@[i as int]@);
        }
        match build_tool(names[i].as_str(), cfg, has_bus) {
            Some(t) => {
                tools.push(t);
            },
            None => {
                let s = copy(names[i].as_str());
                proof {
                    lemma_texts_push(unknown@, s);
                }
                unknown.push(s);
            },
        }
        i += 1;
    }
    assert(all.take(n as int) =~= all);
    (tools, unknown)
}

/// Every listed name gives a tool when there is a bus, and a name that is not
/// listed never does.
pub proof fn exactly_the_listed_names_give_tools(name: Seq<char>)
    ensures
        tool_names().contains(name) == (stands_alone(name) || needs_bus(name)),
{
    let t = tool_names();
    assert(t[0] == "open_app"@ && t[1] == "open_url"@ && t[2] == "notification"@ && t[3]
        == "current_window"@ && t[4] == "screenshot"@ && t[5] == "clipboard_get"@ && t[6]
        == "web_search"@ && t[7] == "memctl_recall"@ && t[8] == "memctl_ingest"@ && t[9]
        == "dispatch_agent"@ && t[10] == "click"@ && t[11] == "type_text"@ && t[12]
        == "key_combo"@ && t[13] == "scroll"@ && t[14] == "focus_window"@ && t[15]
        == "get_mouse"@ && t[16] == "look_at_screen"@);
}

} // verus!
