//! Configuration of a bridge.
use vstd::prelude::*;
use vstd::string::*;
use crate::message::opt_text;
use crate::paths::{expand_tilde, joined, join_path, opt_str, untilded};
use crate::text::{cat2, copy};

verus! {

/// Configuration of a bridge.
#[derive(Debug)]
pub struct AgentBridgeConfig {
    pub agent: AgentSection,
    pub backend: BackendSection,
    pub prompt: PromptSection,
    pub tools: ToolsSection,
    pub bus: BusSection,
    pub store: Option<StoreSection>,
    pub streaming: StreamingSection,
    pub conversation: ConversationConfig,
}

/// Who the agent is; its name is also a token of its subjects.
#[derive(Debug)]
pub struct AgentSection {
    pub name: String,
}

/// Where inference happens.
#[derive(Debug)]
pub struct BackendSection {
    pub kind: BackendKind,
    pub url: String,
    pub model: String,
    /// The environment variable that holds the key.
    pub api_key_env: String,
}

/// How inference is done.
#[derive(Clone, Copy, Debug, PartialEq, Eq, Structural)]
pub enum BackendKind {
    /// By a server with an OpenAI-compatible interface.
    OpenaiCompat,
    /// Not at all: the input is echoed.
    Echo,
}

/// Where the system prompt comes from.
#[derive(Debug)]
pub struct PromptSection {
    pub system_file: String,
    pub fallback_file: Option<String>,
}

/// The tools of the agent.
#[derive(Debug)]
pub struct ToolsSection {
    pub vault_root: Option<String>,
    pub enabled: Vec<String>,
    pub searxng_url: Option<String>,
    pub memctl_bin: Option<String>,
    pub cache_dir: Option<String>,
    pub computer_use_safety: Option<String>,
    pub computer_use_safe_keys: Option<Vec<String>>,
    pub computer_use_safe_focus_apps: Option<Vec<String>>,
    pub vision_url: Option<String>,
    pub vision_model: Option<String>,
    pub vision_localize_model: Option<String>,
    pub vision_analyze_model: Option<String>,
}

/// The connection to the bus.
#[derive(Debug)]
pub struct BusSection {
    pub nats_url: String,
    pub user_env: String,
    pub password_env: String,
    pub subscribe_subject: String,
    pub publish_prefix: String,
}

/// Where conversations are stored.
#[derive(Debug)]
pub struct StoreSection {
    pub db_path: String,
}

/// Whether replies are streamed.
#[derive(Clone, Copy, Debug)]
pub struct StreamingSection {
    pub enabled: bool,
}

/// How long a conversation lasts and how much of it is kept.
#[derive(Clone, Copy, Debug)]
pub struct ConversationConfig {
    pub session_timeout_ms: u64,
    pub max_history_turns: u32,
}

pub fn default_vision_analyze_model() -> (r: Option<String>)
    ensures
        opt_text(r) == Some("gemma4-quality"@),
{
    Some(copy("gemma4-quality"))
}

pub fn default_user_env() -> (r: String)
    ensures
        r@ == "NATS_USER"@,
{
    copy("NATS_USER")
}

pub fn default_password_env() -> (r: String)
    ensures
        r@ == "NATS_PASSWORD"@,
{
    copy("NATS_PASSWORD")
}

pub fn default_streaming_enabled() -> (r: bool)
    ensures
        r,
{
    true
}

impl Default for StreamingSection {
    fn default() -> (r: Self)
        ensures
            r.enabled,
    {
        StreamingSection { enabled: default_streaming_enabled() }
    }
}

impl Default for ConversationConfig {
    fn default() -> (r: Self)
        ensures
            r == (ConversationConfig { session_timeout_ms: 600000, max_history_turns: 20 }),
    {
        ConversationConfig { session_timeout_ms: 600000, max_history_turns: 20 }
    }
}

impl Default for ToolsSection {
    fn default() -> (r: Self)
        ensures
            r.vault_root is None,
            r.enabled@.len() == 0,
            r.searxng_url is None,
            r.memctl_bin is None,
            r.cache_dir is None,
            r.computer_use_safety is None,
            r.computer_use_safe_keys is None,
            r.computer_use_safe_focus_apps is None,
            r.vision_url is None,
            r.vision_model is None,
            r.vision_localize_model is None,
            r.vision_analyze_model is None,
    {
        ToolsSection {
            vault_root: None,
            enabled: Vec::new(),
            searxng_url: None,
            memctl_bin: None,
            cache_dir: None,
            computer_use_safety: None,
            computer_use_safe_keys: None,
            computer_use_safe_focus_apps: None,
            vision_url: None,
            vision_model: None,
            vision_localize_model: None,
            vision_analyze_model: None,
        }
    }
}

/// An optional path without a leading `~/`.
pub open spec fn untilded_opt(p: Option<String>, home: Option<Seq<char>>) -> Option<Seq<char>> {
    match p {
        Some(s) => Some(untilded(s@, home)),
        None => None,
    }
}

fn expand_opt(p: &Option<String>, home: Option<&str>) -> (r: Option<String>)
    ensures
        opt_text(r) == untilded_opt(*p, opt_str(home)),
{
    match p {
        Some(s) => Some(expand_tilde(s.as_str(), home)),
        None => None,
    }
}

impl AgentBridgeConfig {
    /// Where the configuration of an agent is looked for.
    pub fn default_path(config_dir: Option<&str>, agent_name: &str) -> (r: Option<String>)
        ensures
            opt_text(r) == (match config_dir {
                Some(d) => Some(joined(joined(d@, "voicectl/agents"@), agent_name@ + ".toml"@)),
                None => None,
            }),
    {
        match config_dir {
            Some(d) => {
                let dir = join_path(d, "voicectl/agents");
                let file = cat2(agent_name, ".toml");
                Some(join_path(dir.as_str(), file.as_str()))
            },
            None => None,
        }
    }

    /// Replaces a leading `~/` by the home directory in every path that the
    /// bridge opens.
    pub fn expand_tildes(&mut self, home: Option<&str>)
        ensures
            opt_text(final(self).tools.vault_root) == untilded_opt(
                old(self).tools.vault_root,
                opt_str(home),
            ),
            opt_text(final(self).tools.memctl_bin) == untilded_opt(
                old(self).tools.memctl_bin,
                opt_str(home),
            ),
            opt_text(final(self).tools.cache_dir) == untilded_opt(
                old(self).tools.cache_dir,
                opt_str(home),
            ),
            final(self).prompt.system_file@ == untilded(
                old(self).prompt.system_file@,
                opt_str(home),
            ),
            opt_text(final(self).prompt.fallback_file) == untilded_opt(
                old(self).prompt.fallback_file,
                opt_str(home),
            ),
            match old(self).store {
                Some(s) => final(self).store is Some && final(self).store->0.db_path@ == untilded(
                    s.db_path@,
                    opt_str(home),
                ),
                None => final(self).store is None,
            },
            final(self).agent == old(self).agent,
            final(self).backend == old(self).backend,
            final(self).bus == old(self).bus,
            final(self).streaming == old(self).streaming,
            final(self).conversation == old(self).conversation,
            final(self).tools == (ToolsSection {
                vault_root: final(self).tools.vault_root,
                memctl_bin: final(self).tools.memctl_bin,
                cache_dir: final(self).tools.cache_dir,
                ..old(self).tools
            }),
    {
        self.tools.vault_root = expand_opt(&self.tools.vault_root, home);
        self.tools.memctl_bin = expand_opt(&self.tools.memctl_bin, home);
        self.tools.cache_dir = expand_opt(&self.tools.cache_dir, home);
        self.prompt.system_file = expand_tilde(self.prompt.system_file.as_str(), home);
        self.prompt.fallback_file = expand_opt(&self.prompt.fallback_file, home);
        let store = match &self.store {
            Some(s) => Some(StoreSection { db_path: expand_tilde(s.db_path.as_str(), home) }),
            None => None,
        };
        self.store = store;
    }
}

/// An optional path is taken below the home directory as any other is.
pub proof fn an_optional_path_is_a_path(p: String, home: Option<Seq<char>>)
    ensures
        untilded_opt(None, home) is None,
        untilded_opt(Some(p), home) == Some(untilded(p@, home)),
{
}

} // verus!
