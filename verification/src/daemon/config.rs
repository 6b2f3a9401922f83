//! Configuration of the daemon.
use vstd::prelude::*;
use vstd::string::*;
use crate::decimal::{dec, decimal};
use crate::message::{opt_text, Message, MessageView};
use crate::net::backend::{Backend, BackendView, Kind};
use crate::paths::{join_path, joined, opt_str};
use crate::text::{cat2, cat3, copy, same};

verus! {

/// Configuration of the daemon.
#[derive(Debug)]
pub struct Config {
    pub host: String,
    pub port: u16,
    pub model: String,
    pub provider: String,
    pub api_key: Option<String>,
    pub base_url: Option<String>,
    pub store_path: Option<String>,
    /// The token that callers have to present.
    pub auth_token: String,
    /// Whether tool results are sent as user messages.
    pub tool_result_as_user: bool,
}

pub fn default_host() -> (r: String)
    ensures
        r@ == "127.0.0.1"@,
{
    copy("127.0.0.1")
}

pub fn default_port() -> (r: u16)
    ensures
        r == 7770,
{
    7770
}

pub fn default_model() -> (r: String)
    ensures
        r@ == "gemma3:4b"@,
{
    copy("gemma3:4b")
}

pub fn default_provider() -> (r: String)
    ensures
        r@ == "ollama"@,
{
    copy("ollama")
}

impl Default for Config {
    fn default() -> (r: Self)
        ensures
            r.host@ == "127.0.0.1"@,
            r.port == 7770,
            r.model@ == "gemma3:4b"@,
            r.provider@ == "ollama"@,
            r.api_key is None,
            r.base_url is None,
            r.store_path is None,
            r.auth_token@.len() == 0,
            !r.tool_result_as_user,
    {
        Config {
            host: default_host(),
            port: default_port(),
            model: default_model(),
            provider: default_provider(),
            api_key: None,
            base_url: None,
            store_path: None,
            auth_token: String::new(),
            tool_result_as_user: false,
        }
    }
}

/// The provider's backend before its address is changed, or why there is none.
pub open spec fn provider_backend(
    provider: Seq<char>,
    model: Seq<char>,
    key: Option<Seq<char>>,
) -> Result<BackendView, Seq<char>> {
    if provider == "ollama"@ {
        Ok(
            BackendView {
                kind: Kind::Openai,
                base_url: "http://localhost:11434/v1"@,
                api_key: None,
                model,
                timeouts: None,
            },
        )
    } else if provider == "openai"@ {
        match key {
            Some(k) => Ok(
                BackendView {
                    kind: Kind::Openai,
                    base_url: "https://api.openai.com/v1"@,
                    api_key: Some(k),
                    model,
                    timeouts: None,
                },
            ),
            None => Err("OpenAI API key required"@),
        }
    } else if provider == "anthropic"@ {
        match key {
            Some(k) => Ok(
                BackendView {
                    kind: Kind::Anthropic,
                    base_url: "https://api.anthropic.com/v1"@,
                    api_key: Some(k),
                    model,
                    timeouts: None,
                },
            ),
            None => Err("Anthropic API key required"@),
        }
    } else {
        Err("unknown provider: "@ + provider)
    }
}

/// The first of two optional texts that is there.
pub open spec fn first_given(a: Option<Seq<char>>, b: Option<Seq<char>>) -> Option<Seq<char>> {
    match a {
        Some(s) => Some(s),
        None => b,
    }
}

/// The backend of a configuration; the key of the environment counts where the
/// configuration has none.
pub open spec fn backend_of(c: Config, env_key: Option<Seq<char>>) -> Result<BackendView, Seq<char>> {
    match provider_backend(c.provider@, c.model@, first_given(opt_text(c.api_key), env_key)) {
        Ok(b) => Ok(
            match c.base_url {
                Some(u) => BackendView { base_url: u@, ..b },
                None => b,
            },
        ),
        Err(e) => Err(e),
    }
}

impl Config {
    /// Where the store lies: below the data directory unless a place is set.
    pub fn store_db_path(&self, data_dir: Option<&str>) -> (r: String)
        ensures
            r@ == (match self.store_path {
                Some(p) => p@,
                None => joined(
                    joined(
                        match data_dir {
                            Some(d) => d@,
                            None => "/tmp"@,
                        },
                        "dmn"@,
                    ),
                    "dmn.db"@,
                ),
            }),
    {
        match &self.store_path {
            Some(p) => copy(p.as_str()),
            None => {
                let base = match data_dir {
                    Some(d) => d,
                    None => "/tmp",
                };
                let dir = join_path(base, "dmn");
                join_path(dir.as_str(), "dmn.db")
            },
        }
    }

    /// The address on which the daemon listens.
    pub fn addr(&self) -> (r: String)
        ensures
            r@ == self.host@ + ":"@ + dec(self.port as nat),
    {
        let port = decimal(self.port as u64);
        cat3(self.host.as_str(), ":", port.as_str())
    }

    /// Whether the daemon may start: callers have to present a token, so there
    /// has to be one.
    pub fn check_start(&self) -> (r: Result<(), String>)
        ensures
            match r {
                Ok(()) => self.auth_token@.len() > 0,
                Err(e) => self.auth_token@.len() == 0 && e@ == "auth_token must not be empty"@,
            },
    {
        if self.auth_token.as_str().is_empty() {
            Err(copy("auth_token must not be empty"))
        } else {
            Ok(())
        }
    }

    /// The environment variable that may hold the provider's key.
    pub fn key_variable(&self) -> (r: Option<&'static str>)
        ensures
            opt_str(r) == (if self.provider@ == "openai"@ {
                Some("OPENAI_API_KEY"@)
            } else if self.provider@ == "anthropic"@ {
                Some("ANTHROPIC_API_KEY"@)
            } else {
                None
            }),
    {
        if same(self.provider.as_str(), "openai") {
            Some("OPENAI_API_KEY")
        } else if same(self.provider.as_str(), "anthropic") {
            Some("ANTHROPIC_API_KEY")
        } else {
            None
        }
    }

    /// The backend of the configuration.
    pub fn build_backend(&self, env_key: Option<&str>) -> (r: Result<Backend, String>)
        ensures
            match r {
                Ok(b) => backend_of(*self, opt_str(env_key)) is Ok && backend_of(
                    *self,
                    opt_str(env_key),
                )->Ok_0 == b@,
                Err(e) => backend_of(*self, opt_str(env_key)) is Err && backend_of(
                    *self,
                    opt_str(env_key),
                )->Err_0 == e@,
            },
    {
        let key: Option<&str> = match &self.api_key {
            Some(k) => Some(k.as_str()),
            None => env_key,
        };
        let model = self.model.as_str();
        proof {
            distinct_providers();
        }
        let backend = if same(self.provider.as_str(), "ollama") {
            Backend::ollama(model)
        } else if same(self.provider.as_str(), "openai") {
            match key {
                Some(k) => Backend::openai(model, k),
                None => {
                    return Err(copy("OpenAI API key required"));
                },
            }
        } else if same(self.provider.as_str(), "anthropic") {
            match key {
                Some(k) => Backend::anthropic(model, k),
                None => {
                    return Err(copy("Anthropic API key required"));
                },
            }
        } else {
            return Err(cat2("unknown provider: ", self.provider.as_str()));
        };
        match &self.base_url {
            Some(u) => Ok(backend.with_base_url(u.as_str())),
            None => Ok(backend),
        }
    }
}

proof fn distinct_providers()
    ensures
        "ollama"@ != "openai"@,
        "ollama"@ != "anthropic"@,
        "openai"@ != "anthropic"@,
{
    reveal_strlit("ollama");
    reveal_strlit("openai");
    reveal_strlit("anthropic");
    assert("ollama"@[1] != "openai"@[1]);
    assert("ollama"@[0] != "anthropic"@[0]);
    assert("openai"@[0] != "anthropic"@[0]);
}

/// Where the configuration lies: where the environment says, or below the
/// configuration directory.
pub fn config_path(from_env: Option<&str>, config_dir: Option<&str>) -> (r: String)
    ensures
        r@ == (match from_env {
            Some(p) => p@,
            None => joined(
                joined(
                    match config_dir {
                        Some(d) => d@,
                        None => "/tmp"@,
                    },
                    "dmn"@,
                ),
                "dmn.toml"@,
            ),
        }),
{
    match from_env {
        Some(p) => copy(p),
        None => {
            let base = match config_dir {
                Some(d) => d,
                None => "/tmp",
            };
            let dir = join_path(base, "dmn");
            join_path(dir.as_str(), "dmn.toml")
        },
    }
}

/// A message with a tool's result as one of the user; any other message as it is.
pub open spec fn as_user(m: MessageView) -> MessageView {
    if m.role == "tool"@ {
        MessageView { role: "user"@, ..m }
    } else {
        m
    }
}

impl Config {
    /// A conversation as it is sent to the backend: where the configuration says so,
    /// tool results are user messages.
    pub fn outgoing(&self, messages: &Vec<Message>) -> (r: Vec<Message>)
        ensures
            r@.len() == messages@.len(),
            forall|i: int|
                0 <= i < messages@.len() ==> (#[trigger] r@[i])@ == (
                if self.tool_result_as_user {
                    as_user(messages@[i]@)
                } else {
                    messages@[i]@
                }),
    {
        let mut out: Vec<Message> = Vec::new();
        let mut i: usize = 0;
        while i < messages.len()
            invariant
                i <= messages@.len(),
                out@.len() == i,
                forall|j: int|
                    0 <= j < i ==> (#[trigger] out@[j])@ == (if self.tool_result_as_user {
                        as_user(messages@[j]@)
                    } else {
                        messages@[j]@
                    }),
            decreases messages.len() - i,
        {
            let mut m = messages[i].clone();
            if self.tool_result_as_user && same(m.role.as_str(), "tool") {
                m.role = copy("user");
            }
            out.push(m);
            i += 1;
        }
        out
    }
}

} // verus!
