//! From a configuration to what a bridge runs with.
use vstd::prelude::*;
use vstd::string::*;
use crate::bridge::config::{BackendSection, PromptSection, ToolsSection};
use crate::net::backend::{Backend, BackendView, Kind};
use crate::paths::joined;
use crate::pieces::{copy_texts, trimmed};
use crate::search::{texts, trim};
use crate::text::{cat2, cat3, copy, same};
use crate::tools::computer::{mode_of, navigation_keys, typing_apps, SafetyMode};
use crate::tools::toolset::{build_tool, is_tool, needs_bus, stands_alone, SystemTool, SystemToolsConfig};
use crate::wire::{subject2, AGENT_CANCEL_PREFIX};

verus! {

/// Where prompts of the bridge come from.
#[derive(Clone, Copy, Debug, PartialEq, Eq, Structural)]
pub enum PromptSource {
    Primary,
    Fallback,
    Nothing,
}

/// The file that holds the system prompt: the first that exists.
pub fn prompt_source(primary_exists: bool, fallback_exists: Option<bool>) -> (r: PromptSource)
    ensures
        r == (if primary_exists {
            PromptSource::Primary
        } else if fallback_exists == Some(true) {
            PromptSource::Fallback
        } else {
            PromptSource::Nothing
        }),
{
    if primary_exists {
        PromptSource::Primary
    } else {
        match fallback_exists {
            Some(true) => PromptSource::Fallback,
            _ => PromptSource::Nothing,
        }
    }
}

/// The system prompt, from what was read of its file; empty where there is none.
pub fn read_prompt(source: PromptSource, prompt: &PromptSection, read: Option<&str>) -> (r: Result<
    String,
    String,
>)
    ensures
        match source {
            PromptSource::Nothing => r is Ok && r->Ok_0@ == Seq::<char>::empty(),
            _ => match read {
                Some(s) => r is Ok && r->Ok_0@ == trim(s@),
                None => r is Err && r->Err_0@ == (if source == PromptSource::Primary {
                    "read system_file "@ + prompt.system_file@
                } else {
                    "read fallback_file "@ + (match prompt.fallback_file {
                        Some(f) => f@,
                        None => ""@,
                    })
                }),
            },
        },
{
    match source {
        PromptSource::Nothing => {
            let r = String::new();
            assert(r@ =~= Seq::<char>::empty());
            Ok(r)
        },
        PromptSource::Primary => match read {
            Some(s) => Ok(trimmed(s)),
            None => Err(cat2("read system_file ", prompt.system_file.as_str())),
        },
        PromptSource::Fallback => match read {
            Some(s) => Ok(trimmed(s)),
            None => {
                let f = match &prompt.fallback_file {
                    Some(f) => f.as_str(),
                    None => "",
                };
                Err(cat2("read fallback_file ", f))
            },
        },
    }
}

/// The backend of a bridge. There is no key but the one in the environment.
pub fn build_openai(b: &BackendSection, key: Option<&str>) -> (r: Result<Backend, String>)
    ensures
        match key {
            Some(k) => r is Ok && r->Ok_0@ == (BackendView {
                kind: Kind::Openai,
                base_url: b.url@,
                api_key: Some(k@),
                model: b.model@,
                timeouts: None,
            }),
            None => r is Err && r->Err_0@ == "env var '"@ + b.api_key_env@
                + "' (backend.api_key_env) is not set; agnt-bridge refuses to default to a baked-in key."@,
        },
{
    match key {
        Some(k) => Ok(Backend::openai(b.model.as_str(), k).with_base_url(b.url.as_str())),
        None => Err(
            cat3(
                "env var '",
                b.api_key_env.as_str(),
                "' (backend.api_key_env) is not set; agnt-bridge refuses to default to a baked-in key.",
            ),
        ),
    }
}

/// The text that is set, or the default.
pub open spec fn text_or(o: Option<String>, default: Seq<char>) -> Seq<char> {
    match o {
        Some(s) => s@,
        None => default,
    }
}

/// The texts that are set, or the default.
pub open spec fn texts_or(o: Option<Vec<String>>, default: Seq<Seq<char>>) -> Seq<Seq<char>> {
    match o {
        Some(v) => texts(v@),
        None => default,
    }
}

/// The safety mode that is set. What names no mode asks for approval, as does
/// nothing.
pub open spec fn mode_or_confirm(o: Option<String>) -> SafetyMode {
    match o {
        Some(s) => match mode_of(s@) {
            Some(m) => m,
            None => SafetyMode::Confirm,
        },
        None => SafetyMode::Confirm,
    }
}

/// Configuration of the tools: what is set, and the defaults of the home directory
/// for the rest.
pub fn build_system_tools_config(tools: &ToolsSection, home: Option<&str>) -> (r: SystemToolsConfig)
    ensures
        ({
            let h = match home {
                Some(h) => h@,
                None => "/"@,
            };
            &&& r.searxng_url@ == text_or(tools.searxng_url, "http://lnx-rig:8888"@)
            &&& r.memctl_bin@ == text_or(tools.memctl_bin, joined(h, ".local/bin/memctl"@))
            &&& r.cache_dir@ == text_or(tools.cache_dir, joined(h, ".cache/voicectl"@))
            &&& r.computer_use_safety.mode == mode_or_confirm(tools.computer_use_safety)
            &&& texts(r.computer_use_safety.safe_keys@) == texts_or(
                tools.computer_use_safe_keys,
                navigation_keys(),
            )
            &&& texts(r.computer_use_safety.safe_focus_apps@) == texts_or(
                tools.computer_use_safe_focus_apps,
                typing_apps(),
            )
        }),
{
    let mut sc = match home {
        Some(h) => SystemToolsConfig::for_home(h),
        None => SystemToolsConfig::for_home("/"),
    };
    if let Some(url) = &tools.searxng_url {
        sc.searxng_url = copy(url.as_str());
    }
    if let Some(p) = &tools.memctl_bin {
        sc.memctl_bin = copy(p.as_str());
    }
    if let Some(p) = &tools.cache_dir {
        sc.cache_dir = copy(p.as_str());
    }
    if let Some(s) = &tools.computer_use_safety {
        match SafetyMode::parse(s.as_str()) {
            Ok(mode) => {
                sc.computer_use_safety.mode = mode;
            },
            Err(_) => {},
        }
    }
    if let Some(keys) = &tools.computer_use_safe_keys {
        sc.computer_use_safety.safe_keys = copy_texts(keys);
    }
    if let Some(apps) = &tools.computer_use_safe_focus_apps {
        sc.computer_use_safety.safe_focus_apps = copy_texts(apps);
    }
    sc
}

/// What the name of an enabled tool stands for.
pub enum ToolChoice {
    /// Reads files, below the root of the vault where there is one.
    ReadFile,
    /// Searches files, below the root of the vault where there is one.
    Grep,
    System(SystemTool),
    /// Handing over tasks takes a bus, and there is none.
    NoBus,
    Unknown,
}

/// The choice for a name.
pub open spec fn is_choice(
    c: ToolChoice,
    name: Seq<char>,
    cfg: SystemToolsConfig,
    has_bus: bool,
) -> bool {
    match c {
        ToolChoice::ReadFile => name == "read_file"@,
        ToolChoice::Grep => name == "grep"@,
        ToolChoice::System(t) => is_tool(t, name, cfg) && (stands_alone(name) || (has_bus
            && needs_bus(name))),
        ToolChoice::NoBus => name == "dispatch_agent"@ && !has_bus,
        ToolChoice::Unknown => name != "read_file"@ && name != "grep"@ && !stands_alone(name) && (
        has_bus ==> !needs_bus(name)) && (name == "dispatch_agent"@ ==> has_bus),
    }
}

/// What the name of an enabled tool stands for.
pub fn choose_tool(name: &str, cfg: &SystemToolsConfig, has_bus: bool) -> (r: ToolChoice)
    ensures
        is_choice(r, name@, *cfg, has_bus),
{
    if same(name, "read_file") {
        ToolChoice::ReadFile
    } else if same(name, "grep") {
        ToolChoice::Grep
    } else {
        match build_tool(name, cfg, has_bus) {
            Some(t) => ToolChoice::System(t),
            None => if same(name, "dispatch_agent") && !has_bus {
                ToolChoice::NoBus
            } else {
                ToolChoice::Unknown
            },
        }
    }
}

/// What the names of the enabled tools stand for, in their order.
pub fn choose_tools(names: &Vec<String>, cfg: &SystemToolsConfig, has_bus: bool) -> (r: Vec<
    ToolChoice,
>)
    ensures
        r@.len() == names@.len(),
        forall|i: int|
            0 <= i < r@.len() ==> is_choice(#[trigger] r@[i], names@[i]@, *cfg, has_bus),
{
    let mut out: Vec<ToolChoice> = Vec::new();
    let n: usize = names.len();
    let mut i: usize = 0;
    while i < n
        invariant
            i <= n,
            n == names@.len(),
            out@.len() == i,
            forall|k: int|
                0 <= k < i ==> is_choice(#[trigger] out@[k], names@[k]@, *cfg, has_bus),
        decreases n - i,
    {
        out.push(choose_tool(names[i].as_str(), cfg, has_bus));
        i += 1;
    }
    out
}

/// Where a bridge is told to stop what it is doing.
pub fn cancel_subject(agent_name: &str) -> (r: String)
    ensures
        r@ == subject2(AGENT_CANCEL_PREFIX@, agent_name@),
{
    cat3(AGENT_CANCEL_PREFIX, ".", agent_name)
}

/// A mode that is not named, or not known, is the one that asks for approval.
pub proof fn an_unknown_mode_asks_for_approval(s: String)
    ensures
        mode_or_confirm(None) == SafetyMode::Confirm,
        mode_of(s@) is None ==> mode_or_confirm(Some(s)) == SafetyMode::Confirm,
        mode_of(s@) is Some ==> mode_or_confirm(Some(s)) == mode_of(s@)->0,
{
}

/// A name that is none of the tools' gives none, and one that takes a bus gives none
/// without it.
pub proof fn a_name_gives_the_tool_of_that_name(
    c: ToolChoice,
    name: Seq<char>,
    cfg: SystemToolsConfig,
    has_bus: bool,
)
    requires
        is_choice(c, name, cfg, has_bus),
    ensures
        c is ReadFile ==> name == "read_file"@,
        c is Grep ==> name == "grep"@,
        c is System ==> is_tool(c->System_0, name, cfg) && (needs_bus(name) ==> has_bus
            || stands_alone(name)),
        c is NoBus ==> name == "dispatch_agent"@ && !has_bus,
        name == "read_file"@ || name == "grep"@ || stands_alone(name) || has_bus && needs_bus(name)
            ==> !(c is Unknown),
{
}

} // verus!
