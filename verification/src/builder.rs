//! Putting an agent together.
use vstd::prelude::*;
use crate::agent::{
    Agent, Limits, DEFAULT_MAX_TOOL_OUTPUT_CHARS, DEFAULT_MAX_TOOL_RESULT_BYTES,
};
use crate::message::{messages_view, plain_view, Message, MessageView};
use crate::step::RunView;
use crate::store_trait::StoreError;
use crate::text::copy;
use crate::tool::{described, Registered, Registry, Tool};

verus! {

/// What an agent is made of. What is not set keeps its default.
pub struct AgentBuilder {
    pub system: String,
    pub tools: Registry,
    pub max_steps: Option<usize>,
    pub max_window: Option<usize>,
    pub max_tool_result_bytes: Option<usize>,
    pub max_tool_output_chars: Option<usize>,
    /// What the store holds of a session, and the session.
    pub stored: Option<(Result<Vec<Message>, StoreError>, String)>,
    /// Time that one step may take, in nanoseconds.
    pub max_step_duration: Option<u64>,
}

/// The chosen number, or the default.
pub open spec fn chosen(n: Option<usize>, default: nat) -> nat {
    match n {
        Some(k) => k as nat,
        None => default,
    }
}

impl AgentBuilder {
    /// The limits of the agent.
    pub open spec fn limits(&self) -> Limits {
        Limits {
            max_steps: chosen(self.max_steps, 25),
            max_window: chosen(self.max_window, 40),
            max_tool_result_bytes: chosen(
                self.max_tool_result_bytes,
                DEFAULT_MAX_TOOL_RESULT_BYTES as nat,
            ),
            max_tool_output_chars: chosen(
                self.max_tool_output_chars,
                DEFAULT_MAX_TOOL_OUTPUT_CHARS as nat,
            ),
            quotas: Map::empty(),
            max_step_duration: self.max_step_duration,
        }
    }

    /// The conversation with which the agent starts: the stored one, if there is
    /// any, else the system prompt.
    pub open spec fn history(&self) -> Seq<MessageView> {
        let fresh = seq![plain_view("system"@, self.system@)];
        match self.stored {
            Some((Ok(h), _)) => if h@.len() > 0 {
                messages_view(h@)
            } else {
                fresh
            },
            _ => fresh,
        }
    }

    /// Nothing is set.
    pub fn new() -> (r: AgentBuilder)
        ensures
            r.system@ == Seq::<char>::empty(),
            r.tools@.len() == 0,
            r.max_steps is None,
            r.max_window is None,
            r.max_tool_result_bytes is None,
            r.max_tool_output_chars is None,
            r.stored is None,
            r.max_step_duration is None,
    {
        let system = String::new();
        assert(system@ =~= Seq::<char>::empty());
        AgentBuilder {
            system,
            tools: Registry::new(),
            max_steps: None,
            max_window: None,
            max_tool_result_bytes: None,
            max_tool_output_chars: None,
            stored: None,
            max_step_duration: None,
        }
    }

    /// Sets the system prompt.
    pub fn system(self, system: &str) -> (r: AgentBuilder)
        ensures
            r == (AgentBuilder { system: r.system, ..self }),
            r.system@ == system@,
    {
        let mut b = self;
        b.system = copy(system);
        b
    }

    /// Adds a tool.
    pub fn tool(self, tool: Box<dyn Tool>) -> (r: AgentBuilder)
        ensures
            r == (AgentBuilder { tools: r.tools, ..self }),
            r.tools@.len() == self.tools@.len() + 1,
            r.tools@.drop_last() == self.tools@,
            r.tools@.last().name@ == tool.tool_name(),
            r.tools@.last().description@ == tool.about(),
            r.tools@.last().schema@ == tool.parameters(),
            r.tools@.last().tool == tool,
    {
        let mut b = self;
        let entry = described(tool.name(), tool.description(), tool.schema(), tool);
        b.tools.add(entry);
        assert(b.tools@.drop_last() =~= self.tools@);
        b
    }

    /// Adds tools.
    pub fn tools(self, tools: Vec<Registered>) -> (r: AgentBuilder)
        ensures
            r == (AgentBuilder { tools: r.tools, ..self }),
            r.tools@ == self.tools@ + tools@,
    {
        let mut b = self;
        b.tools.register_all(tools);
        b
    }

    /// Sets the inference turns per step.
    pub fn max_steps(self, n: usize) -> (r: AgentBuilder)
        ensures
            r == (AgentBuilder { max_steps: Some(n), ..self }),
    {
        let mut b = self;
        b.max_steps = Some(n);
        b
    }

    /// Sets the messages sent to the backend per turn.
    pub fn max_window(self, n: usize) -> (r: AgentBuilder)
        ensures
            r == (AgentBuilder { max_window: Some(n), ..self }),
    {
        let mut b = self;
        b.max_window = Some(n);
        b
    }

    /// Sets the bytes per tool result.
    pub fn max_tool_result_bytes(self, n: usize) -> (r: AgentBuilder)
        ensures
            r == (AgentBuilder { max_tool_result_bytes: Some(n), ..self }),
    {
        let mut b = self;
        b.max_tool_result_bytes = Some(n);
        b
    }

    /// Sets the characters per tool result.
    pub fn max_tool_output_chars(self, n: usize) -> (r: AgentBuilder)
        ensures
            r == (AgentBuilder { max_tool_output_chars: Some(n), ..self }),
    {
        let mut b = self;
        b.max_tool_output_chars = Some(n);
        b
    }

    /// Sets what the store holds of a session.
    pub fn store(self, loaded: Result<Vec<Message>, StoreError>, session: &str) -> (r: AgentBuilder)
        ensures
            r.stored is Some,
            (r.stored->0).0 == loaded,
            (r.stored->0).1@ == session@,
            r == (AgentBuilder { stored: r.stored, ..self }),
    {
        let mut b = self;
        b.stored = Some((loaded, copy(session)));
        b
    }

    /// Sets the time that one step may take, in nanoseconds.
    pub fn max_step_duration(self, ns: u64) -> (r: AgentBuilder)
        ensures
            r == (AgentBuilder { max_step_duration: Some(ns), ..self }),
    {
        let mut b = self;
        b.max_step_duration = Some(ns);
        b
    }

    /// The agent, and how many of its messages still have to be written to the
    /// store. A store that could not be read leaves no agent.
    pub fn build(self) -> (r: Result<(Agent, usize), String>)
        ensures
            match self.stored {
                Some((Err(e), _)) => r is Err && r->Err_0@ == e.text(),
                _ => r is Ok,
            },
            match r {
                Ok((agent, unsaved)) => {
                    &&& agent@.messages == self.history()
                    &&& agent@.limits == self.limits()
                    &&& agent@.run == RunView::fresh()
                    &&& agent.tools@ == self.tools@
                    &&& agent.stream
                    &&& agent.session@ == (match self.stored {
                        Some((_, s)) => s@,
                        None => "default"@,
                    })
                    &&& unsaved == (match self.stored {
                        Some((Ok(h), _)) if h@.len() == 0 => 1int,
                        _ => 0,
                    })
                },
                Err(_) => true,
            },
    {
        let mut agent = Agent::new(self.system.as_str());
        agent.tools = self.tools;
        if let Some(n) = self.max_steps {
            agent.max_steps = n;
        }
        if let Some(n) = self.max_window {
            agent.max_window = n;
        }
        if let Some(n) = self.max_tool_result_bytes {
            agent.max_tool_result_bytes = n;
        }
        if let Some(n) = self.max_tool_output_chars {
            agent.max_tool_output_chars = n;
        }
        agent.max_step_duration = self.max_step_duration;
        match self.stored {
            Some((loaded, session)) => {
                let unsaved: usize = agent.unsaved(&loaded);
                match agent.attach_store(loaded, Ok(()), session.as_str()) {
                    Ok(()) => Ok((agent, unsaved)),
                    Err(e) => Err(e),
                }
            },
            None => Ok((agent, 0)),
        }
    }
}

impl Default for AgentBuilder {
    fn default() -> (r: AgentBuilder)
        ensures
            r.system@ == Seq::<char>::empty(),
            r.tools@.len() == 0,
            r.limits() == (Limits {
                max_steps: 25,
                max_window: 40,
                max_tool_result_bytes: DEFAULT_MAX_TOOL_RESULT_BYTES as nat,
                max_tool_output_chars: DEFAULT_MAX_TOOL_OUTPUT_CHARS as nat,
                quotas: Map::empty(),
                max_step_duration: None,
            }),
            r.stored is None,
    {
        AgentBuilder::new()
    }
}

/// A builder keeps what was set and leaves the rest at its usual value; a stored
/// conversation is taken up where there is one, and else the conversation begins with
/// the system prompt.
pub proof fn a_builder_keeps_what_was_set(b: AgentBuilder)
    ensures
        b.max_steps is None ==> b.limits().max_steps == 25,
        b.max_window is None ==> b.limits().max_window == 40,
        b.max_tool_result_bytes is None ==> b.limits().max_tool_result_bytes == 65536,
        b.max_tool_output_chars is None ==> b.limits().max_tool_output_chars == 8000,
        b.max_steps is Some ==> b.limits().max_steps == b.max_steps->0,
        b.max_window is Some ==> b.limits().max_window == b.max_window->0,
        b.max_tool_result_bytes is Some ==> b.limits().max_tool_result_bytes
            == b.max_tool_result_bytes->0,
        b.max_tool_output_chars is Some ==> b.limits().max_tool_output_chars
            == b.max_tool_output_chars->0,
        b.limits().max_step_duration == b.max_step_duration,
        b.stored is Some && (b.stored->0).0 is Ok && (b.stored->0).0->Ok_0@.len() > 0 ==> b.history()
            == messages_view((b.stored->0).0->Ok_0@),
        b.stored is None || (b.stored->0).0 is Ok && (b.stored->0).0->Ok_0@.len() == 0 ==> {
            &&& b.history().len() == 1
            &&& b.history()[0].role == "system"@
            &&& b.history()[0].content == Some(b.system@)
        },
{
}

} // verus!
