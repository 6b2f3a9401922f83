//! A model behind an HTTP interface: what is sent, where and with which headers.
use vstd::prelude::*;
use vstd::string::*;
use crate::json::{items_view, lemma_arr_view, JVal, Json};
use crate::message::{messages_view, Message, MessageView};
use crate::net::convert::{
    anthropic_turns, openai_message, to_anthropic_messages, to_openai_messages, turn_json,
};
use crate::text::{cat2, cat3, copy, quote, quoted};

verus! {

/// Seconds to wait for a connection.
pub const DEFAULT_CONNECT_TIMEOUT_SECS: u64 = 10;

/// Seconds to wait for data.
pub const DEFAULT_READ_TIMEOUT_SECS: u64 = 120;

/// The provider family, which decides the wire format.
#[derive(Clone, Copy, Debug, PartialEq, Eq, Structural)]
pub enum Kind {
    Openai,
    Anthropic,
}

/// Custom timeouts of a backend, in milliseconds.
#[derive(Clone, Copy, Debug, PartialEq, Eq, Structural)]
pub struct Timeouts {
    pub connect_ms: u64,
    pub read_ms: u64,
}

/// A model of some provider.
pub struct Backend {
    pub kind: Kind,
    pub base_url: String,
    api_key: Option<String>,
    pub model: String,
    timeouts: Option<Timeouts>,
}

/// The content of a [`Backend`].
pub struct BackendView {
    pub kind: Kind,
    pub base_url: Seq<char>,
    pub api_key: Option<Seq<char>>,
    pub model: Seq<char>,
    pub timeouts: Option<Timeouts>,
}

impl View for Backend {
    type V = BackendView;

    closed spec fn view(&self) -> BackendView {
        BackendView {
            kind: self.kind,
            base_url: self.base_url@,
            api_key: crate::message::opt_text(self.api_key),
            model: self.model@,
            timeouts: self.timeouts,
        }
    }
}

/// A request that is ready to be sent.
pub struct RequestPlan {
    pub url: String,
    pub headers: Vec<(String, String)>,
    pub body: Json,
}

/// The texts of a list of headers.
pub open spec fn headers_view(v: Seq<(String, String)>) -> Seq<(Seq<char>, Seq<char>)> {
    v.map_values(|h: (String, String)| (h.0@, h.1@))
}

/// The headers of a request.
pub open spec fn request_headers(kind: Kind, key: Option<Seq<char>>) -> Seq<(Seq<char>, Seq<char>)> {
    let base = seq![("Content-Type"@, "application/json"@)];
    match (key, kind) {
        (None, _) => base,
        (Some(k), Kind::Openai) => base.push(("Authorization"@, "Bearer "@ + k)),
        (Some(k), Kind::Anthropic) => base.push(("x-api-key"@, k)).push(
            ("anthropic-version"@, "2023-06-01"@),
        ),
    }
}

/// The object with the tool list, where there are tools.
pub open spec fn with_tools(body: JVal, tools: JVal) -> JVal {
    match tools {
        JVal::Arr(v) => if v.len() > 0 {
            body.with("tools"@, tools)
        } else {
            body
        },
        _ => body,
    }
}

/// The object with the streaming flag, where the reply is to be streamed.
pub open spec fn with_stream(body: JVal, streaming: bool) -> JVal {
    if streaming {
        body.with("stream"@, JVal::Bool(true))
    } else {
        body
    }
}

/// The body of a request to an OpenAI-compatible server.
pub open spec fn openai_body(
    model: Seq<char>,
    msgs: Seq<MessageView>,
    tools: JVal,
    streaming: bool,
) -> JVal {
    with_stream(
        with_tools(
            JVal::object().with("model"@, JVal::Str(model)).with(
                "messages"@,
                JVal::Arr(Seq::new(msgs.len(), |i: int| openai_message(msgs[i]))),
            ),
            tools,
        ),
        streaming,
    )
}

/// A tool in the Anthropic format, made of one in the OpenAI format.
pub open spec fn anthropic_tool(t: JVal) -> JVal {
    let f = t.field("function"@);
    JVal::object().with("name"@, f.field("name"@)).with("description"@, f.field("description"@)).with(
        "input_schema"@,
        f.field("parameters"@),
    )
}

/// The tool list in the Anthropic format.
pub open spec fn anthropic_tools(tools: JVal) -> JVal {
    match tools {
        JVal::Arr(v) => JVal::Arr(Seq::new(v.len(), |i: int| anthropic_tool(v[i]))),
        _ => JVal::array(),
    }
}

/// The body of a request to Anthropic.
pub open spec fn anthropic_body(
    model: Seq<char>,
    msgs: Seq<MessageView>,
    tools: JVal,
    streaming: bool,
) -> JVal {
    let (system, turns) = anthropic_turns(msgs);
    let base = JVal::object().with("model"@, JVal::Str(model)).with(
        "messages"@,
        JVal::Arr(Seq::new(turns.len(), |i: int| turn_json(turns[i]))),
    ).with("max_tokens"@, JVal::UInt(4096));
    let named = if system.len() > 0 {
        base.with("system"@, JVal::Str(system))
    } else {
        base
    };
    with_stream(with_tools(named, anthropic_tools(tools)), streaming)
}

fn put_tools(body: Json, tools: Json) -> (r: Json)
    ensures
        r@ == with_tools(body@, tools@),
{
    let some: bool = match &tools {
        Json::Arr(v) => {
            proof {
                lemma_arr_view(*v);
            }
            v.len() > 0
        },
        _ => false,
    };
    if some {
        body.with("tools", tools)
    } else {
        body
    }
}

fn put_stream(body: Json, streaming: bool) -> (r: Json)
    ensures
        r@ == with_stream(body@, streaming),
{
    if streaming {
        body.with("stream", Json::Bool(true))
    } else {
        body
    }
}

fn field_or_null(v: &Json, key: &str) -> (r: Json)
    ensures
        r@ == v@.field(key@),
{
    match v.get(key) {
        Some(x) => x.clone(),
        None => Json::Null,
    }
}

/// A tool in the Anthropic format.
pub fn to_anthropic_tool(t: &Json) -> (r: Json)
    ensures
        r@ == anthropic_tool(t@),
{
    let f = field_or_null(t, "function");
    Json::object().with("name", field_or_null(&f, "name")).with(
        "description",
        field_or_null(&f, "description"),
    ).with("input_schema", field_or_null(&f, "parameters"))
}

fn to_anthropic_tools(tools: &Json) -> (r: Json)
    ensures
        r@ == anthropic_tools(tools@),
{
    match tools.as_array() {
        Some(v) => {
            let mut out: Vec<Json> = Vec::new();
            let n: usize = v.len();
            let mut i: usize = 0;
            while i < n
                invariant
                    i <= n,
                    n == v@.len(),
                    out@.len() == i,
                    forall|k: int| 0 <= k < i ==> (#[trigger] out@[k])@ == anthropic_tool(v@[k]@),
                decreases n - i,
            {
                out.push(to_anthropic_tool(&v[i]));
                i += 1;
            }
            proof {
                lemma_arr_view(out);
                let a = items_view(v@);
                assert(items_view(out@) =~= Seq::new(a.len(), |i: int| anthropic_tool(a[i])));
            }
            Json::Arr(out)
        },
        None => Json::array(),
    }
}

/// What a debug listing shows of a backend.
pub open spec fn debug_view(b: BackendView) -> Seq<char> {
    "Backend { kind: \""@ + (if b.kind == Kind::Openai {
        "Openai"@
    } else {
        "Anthropic"@
    }) + "\", base_url: "@ + quoted(b.base_url) + (", api_key: \"<redacted>\", model: "@ + quoted(
        b.model,
    ) + ", agent: "@ + (if b.timeouts is Some {
        "Some(\"<custom>\")"@
    } else {
        "None"@
    }) + " }"@)
}

impl Backend {
    /// A model of a local Ollama server.
    pub fn ollama(model: &str) -> (r: Backend)
        ensures
            r@ == (BackendView {
                kind: Kind::Openai,
                base_url: "http://localhost:11434/v1"@,
                api_key: None,
                model: model@,
                timeouts: None,
            }),
    {
        Backend {
            kind: Kind::Openai,
            base_url: copy("http://localhost:11434/v1"),
            api_key: None,
            model: copy(model),
            timeouts: None,
        }
    }

    /// A model of OpenAI.
    pub fn openai(model: &str, api_key: &str) -> (r: Backend)
        ensures
            r@ == (BackendView {
                kind: Kind::Openai,
                base_url: "https://api.openai.com/v1"@,
                api_key: Some(api_key@),
                model: model@,
                timeouts: None,
            }),
    {
        Backend {
            kind: Kind::Openai,
            base_url: copy("https://api.openai.com/v1"),
            api_key: Some(copy(api_key)),
            model: copy(model),
            timeouts: None,
        }
    }

    /// A model of Anthropic.
    pub fn anthropic(model: &str, api_key: &str) -> (r: Backend)
        ensures
            r@ == (BackendView {
                kind: Kind::Anthropic,
                base_url: "https://api.anthropic.com/v1"@,
                api_key: Some(api_key@),
                model: model@,
                timeouts: None,
            }),
    {
        Backend {
            kind: Kind::Anthropic,
            base_url: copy("https://api.anthropic.com/v1"),
            api_key: Some(copy(api_key)),
            model: copy(model),
            timeouts: None,
        }
    }

    /// The backend at another address.
    pub fn with_base_url(self, url: &str) -> (r: Backend)
        ensures
            r@ == (BackendView { base_url: url@, ..self@ }),
    {
        Backend {
            kind: self.kind,
            base_url: copy(url),
            api_key: self.api_key,
            model: self.model,
            timeouts: self.timeouts,
        }
    }

    /// The backend with timeouts of its own.
    pub fn with_timeouts(self, connect_ms: u64, read_ms: u64) -> (r: Backend)
        ensures
            r@ == (BackendView { timeouts: Some(Timeouts { connect_ms, read_ms }), ..self@ }),
    {
        Backend {
            kind: self.kind,
            base_url: self.base_url,
            api_key: self.api_key,
            model: self.model,
            timeouts: Some(Timeouts { connect_ms, read_ms }),
        }
    }

    /// The timeouts that apply.
    pub fn timeouts(&self) -> (r: Timeouts)
        ensures
            r == (match self@.timeouts {
                Some(t) => t,
                None => Timeouts { connect_ms: 10000, read_ms: 120000 },
            }),
    {
        match self.timeouts {
            Some(t) => t,
            None => Timeouts {
                connect_ms: DEFAULT_CONNECT_TIMEOUT_SECS * 1000,
                read_ms: DEFAULT_READ_TIMEOUT_SECS * 1000,
            },
        }
    }

    /// The headers of a request.
    pub fn build_request(&self) -> (r: Vec<(String, String)>)
        ensures
            headers_view(r@) == request_headers(self@.kind, self@.api_key),
    {
        let mut out: Vec<(String, String)> = Vec::new();
        out.push((copy("Content-Type"), copy("application/json")));
        if let Some(k) = &self.api_key {
            match self.kind {
                Kind::Openai => {
                    out.push((copy("Authorization"), cat2("Bearer ", k.as_str())));
                },
                Kind::Anthropic => {
                    out.push((copy("x-api-key"), copy(k.as_str())));
                    out.push((copy("anthropic-version"), copy("2023-06-01")));
                },
            }
        }
        assert(headers_view(out@) =~= request_headers(self@.kind, self@.api_key));
        out
    }

    fn chat_openai(&self, messages: &Vec<Message>, tools: &Json, streaming: bool) -> (r: RequestPlan)
        ensures
            r.url@ == self@.base_url + "/chat/completions"@,
            headers_view(r.headers@) == request_headers(self@.kind, self@.api_key),
            r.body@ == openai_body(self@.model, messages_view(messages@), tools@, streaming),
    {
        let msgs = to_openai_messages(messages);
        proof {
            lemma_arr_view(msgs);
            let m = messages_view(messages@);
            assert(items_view(msgs@) =~= Seq::new(m.len(), |i: int| openai_message(m[i])));
        }
        let base = Json::object().with_text("model", self.model.as_str()).with(
            "messages",
            Json::Arr(msgs),
        );
        let body = put_stream(put_tools(base, tools.clone()), streaming);
        RequestPlan {
            url: cat2(self.base_url.as_str(), "/chat/completions"),
            headers: self.build_request(),
            body,
        }
    }

    fn chat_anthropic(&self, messages: &Vec<Message>, tools: &Json, streaming: bool) -> (r:
        RequestPlan)
        ensures
            r.url@ == self@.base_url + "/messages"@,
            headers_view(r.headers@) == request_headers(self@.kind, self@.api_key),
            r.body@ == anthropic_body(self@.model, messages_view(messages@), tools@, streaming),
    {
        let (system, msgs) = to_anthropic_messages(messages);
        proof {
            lemma_arr_view(msgs);
        }
        let base = Json::object().with_text("model", self.model.as_str()).with(
            "messages",
            Json::Arr(msgs),
        ).with("max_tokens", Json::UInt(4096));
        let named = if system.as_str().is_empty() {
            base
        } else {
            base.with_text("system", system.as_str())
        };
        let body = put_stream(put_tools(named, to_anthropic_tools(tools)), streaming);
        RequestPlan {
            url: cat2(self.base_url.as_str(), "/messages"),
            headers: self.build_request(),
            body,
        }
    }

    /// The request of one inference turn.
    pub fn chat(&self, messages: &Vec<Message>, tools: &Json, streaming: bool) -> (r: RequestPlan)
        ensures
            headers_view(r.headers@) == request_headers(self@.kind, self@.api_key),
            match self@.kind {
                Kind::Openai => r.url@ == self@.base_url + "/chat/completions"@ && r.body@
                    == openai_body(self@.model, messages_view(messages@), tools@, streaming),
                Kind::Anthropic => r.url@ == self@.base_url + "/messages"@ && r.body@
                    == anthropic_body(self@.model, messages_view(messages@), tools@, streaming),
            },
    {
        match self.kind {
            Kind::Openai => self.chat_openai(messages, tools, streaming),
            Kind::Anthropic => self.chat_anthropic(messages, tools, streaming),
        }
    }

    /// A debug listing, in which the key does not occur.
    pub fn debug_text(&self) -> (r: String)
        ensures
            r@ == debug_view(self@),
    {
        let kind = match self.kind {
            Kind::Openai => "Openai",
            Kind::Anthropic => "Anthropic",
        };
        let url = quote(self.base_url.as_str());
        let model = quote(self.model.as_str());
        let agent = match self.timeouts {
            Some(_) => "Some(\"<custom>\")",
            None => "None",
        };
        let mut tail = cat3(", api_key: \"<redacted>\", model: ", model.as_str(), ", agent: ");
        tail.append(agent);
        tail.append(" }");
        let mut out = cat3("Backend { kind: \"", kind, "\", base_url: ");
        out.append(url.as_str());
        out.append(tail.as_str());
        out
    }
}

/// Two backends that differ only in their key are listed alike.
pub proof fn debug_text_ignores_the_key(b: BackendView, key: Option<Seq<char>>)
    ensures
        debug_view(b) == debug_view(BackendView { api_key: key, ..b }),
{
}

} // verus!
