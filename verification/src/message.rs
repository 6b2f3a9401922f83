//! Conversation messages shared by the backend, the agent loop and the store.
use vstd::prelude::*;
use crate::text::copy;

verus! {

/// Token counts that a provider reports for one inference turn.
#[derive(Clone, Copy, Debug, PartialEq, Eq, Structural)]
pub struct UsageStats {
    pub prompt_tokens: u32,
    pub completion_tokens: u32,
}

/// The smaller of a sum and the largest `u32`.
pub open spec fn sat_u32(n: int) -> int {
    if n > u32::MAX {
        u32::MAX as int
    } else {
        n
    }
}

impl UsageStats {
    /// Both counts added, each capped at the largest `u32`.
    pub open spec fn plus(self, other: UsageStats) -> UsageStats {
        UsageStats {
            prompt_tokens: sat_u32(self.prompt_tokens + other.prompt_tokens) as u32,
            completion_tokens: sat_u32(self.completion_tokens + other.completion_tokens) as u32,
        }
    }

    /// All tokens of the turn.
    pub fn total(&self) -> (r: u32)
        ensures
            r == sat_u32(self.prompt_tokens + self.completion_tokens),
    {
        self.prompt_tokens.saturating_add(self.completion_tokens)
    }

    /// The counts of two turns together.
    pub fn accumulate(self, other: UsageStats) -> (r: UsageStats)
        ensures
            r == self.plus(other),
    {
        UsageStats {
            prompt_tokens: self.prompt_tokens.saturating_add(other.prompt_tokens),
            completion_tokens: self.completion_tokens.saturating_add(other.completion_tokens),
        }
    }
}

impl Default for UsageStats {
    fn default() -> (r: Self)
        ensures
            r == (UsageStats { prompt_tokens: 0, completion_tokens: 0 }),
    {
        UsageStats { prompt_tokens: 0, completion_tokens: 0 }
    }
}

/// The function that a tool call names, with its arguments as JSON text.
#[derive(Debug)]
pub struct FunctionCall {
    pub name: String,
    pub arguments: String,
}

/// One tool invocation asked for by the model.
#[derive(Debug)]
pub struct ToolCall {
    pub id: String,
    pub call_type: String,
    pub function: FunctionCall,
}

/// A conversation message.
#[derive(Debug)]
pub struct Message {
    pub role: String,
    pub content: Option<String>,
    pub tool_calls: Option<Vec<ToolCall>>,
    pub tool_call_id: Option<String>,
    pub name: Option<String>,
    pub usage: Option<UsageStats>,
}

/// The content of a [`ToolCall`].
pub struct CallView {
    pub id: Seq<char>,
    pub call_type: Seq<char>,
    pub name: Seq<char>,
    pub arguments: Seq<char>,
}

/// The content of a [`Message`].
pub struct MessageView {
    pub role: Seq<char>,
    pub content: Option<Seq<char>>,
    pub tool_calls: Option<Seq<CallView>>,
    pub tool_call_id: Option<Seq<char>>,
    pub name: Option<Seq<char>>,
    pub usage: Option<UsageStats>,
}

/// The text of an optional string.
pub open spec fn opt_text(o: Option<String>) -> Option<Seq<char>> {
    match o {
        Some(s) => Some(s@),
        None => None,
    }
}

pub open spec fn calls_view(v: Seq<ToolCall>) -> Seq<CallView> {
    v.map_values(|c: ToolCall| c@)
}

pub open spec fn messages_view(v: Seq<Message>) -> Seq<MessageView> {
    v.map_values(|m: Message| m@)
}

impl View for ToolCall {
    type V = CallView;

    open spec fn view(&self) -> CallView {
        CallView {
            id: self.id@,
            call_type: self.call_type@,
            name: self.function.name@,
            arguments: self.function.arguments@,
        }
    }
}

impl View for Message {
    type V = MessageView;

    open spec fn view(&self) -> MessageView {
        MessageView {
            role: self.role@,
            content: opt_text(self.content),
            tool_calls: match self.tool_calls {
                Some(v) => Some(calls_view(v@)),
                None => None,
            },
            tool_call_id: opt_text(self.tool_call_id),
            name: opt_text(self.name),
            usage: self.usage,
        }
    }
}

/// The tool calls of a message; none when the field is absent.
pub open spec fn calls_of(m: MessageView) -> Seq<CallView> {
    match m.tool_calls {
        Some(v) => v,
        None => Seq::empty(),
    }
}

/// A message that has a role and a text, and nothing else.
pub open spec fn plain_view(role: Seq<char>, content: Seq<char>) -> MessageView {
    MessageView {
        role,
        content: Some(content),
        tool_calls: None,
        tool_call_id: None,
        name: None,
        usage: None,
    }
}

/// A copy of an optional string.
pub fn copy_opt(o: &Option<String>) -> (r: Option<String>)
    ensures
        opt_text(r) == opt_text(*o),
{
    match o {
        Some(s) => Some(copy(s.as_str())),
        None => None,
    }
}

impl Clone for ToolCall {
    fn clone(&self) -> (r: Self)
        ensures
            r@ == self@,
    {
        ToolCall {
            id: copy(self.id.as_str()),
            call_type: copy(self.call_type.as_str()),
            function: FunctionCall {
                name: copy(self.function.name.as_str()),
                arguments: copy(self.function.arguments.as_str()),
            },
        }
    }
}

/// A copy of a list of tool calls.
pub fn copy_calls(v: &Vec<ToolCall>) -> (r: Vec<ToolCall>)
    ensures
        calls_view(r@) == calls_view(v@),
        r@.len() == v@.len(),
{
    let mut out: Vec<ToolCall> = Vec::new();
    let n: usize = v.len();
    let mut i: usize = 0;
    while i < n
        invariant
            i <= n,
            n == v@.len(),
            calls_view(out@) == calls_view(v@).take(i as int),
            out@.len() == i,
        decreases n - i,
    {
        let c = v[i].clone();
        out.push(c);
        assert(calls_view(out@) =~= calls_view(v@).take(i as int + 1));
        i += 1;
    }
    assert(calls_view(out@) =~= calls_view(v@));
    out
}

impl Clone for Message {
    fn clone(&self) -> (r: Self)
        ensures
            r@ == self@,
    {
        Message {
            role: copy(self.role.as_str()),
            content: copy_opt(&self.content),
            tool_calls: match &self.tool_calls {
                Some(v) => Some(copy_calls(v)),
                None => None,
            },
            tool_call_id: copy_opt(&self.tool_call_id),
            name: copy_opt(&self.name),
            usage: self.usage,
        }
    }
}

impl Message {
    /// A message with a role and a text.
    pub fn plain(role: &str, content: &str) -> (r: Message)
        ensures
            r@ == plain_view(role@, content@),
    {
        Message {
            role: copy(role),
            content: Some(copy(content)),
            tool_calls: None,
            tool_call_id: None,
            name: None,
            usage: None,
        }
    }
}

/// A copy of the messages from index `from` up to `to`.
pub fn copy_messages(v: &Vec<Message>, from: usize, to: usize) -> (r: Vec<Message>)
    requires
        from <= to <= v@.len(),
    ensures
        messages_view(r@) == messages_view(v@).subrange(from as int, to as int),
        r@.len() == to - from,
{
    let mut out: Vec<Message> = Vec::new();
    let mut i: usize = from;
    while i < to
        invariant
            from <= i <= to <= v@.len(),
            messages_view(out@) == messages_view(v@).subrange(from as int, i as int),
            out@.len() == i - from,
        decreases to - i,
    {
        let m = v[i].clone();
        out.push(m);
        assert(messages_view(out@) =~= messages_view(v@).subrange(from as int, i as int + 1));
        i += 1;
    }
    out
}

pub proof fn lemma_messages_push(v: Seq<Message>, m: Message)
    ensures
        messages_view(v.push(m)) == messages_view(v).push(m@),
{
    assert(messages_view(v.push(m)) =~= messages_view(v).push(m@));
}

/// The call type used where a provider leaves it out.
pub fn default_tc_type() -> (r: String)
    ensures
        r@ == "function"@,
{
    copy("function")
}

/// Tokens add up, each count on its own, in any order, and stop at the largest count.
pub proof fn tokens_add_up(a: UsageStats, b: UsageStats)
    ensures
        a.plus(b) == b.plus(a),
        a.prompt_tokens + b.prompt_tokens <= u32::MAX ==> a.plus(b).prompt_tokens
            == a.prompt_tokens + b.prompt_tokens,
        a.prompt_tokens + b.prompt_tokens > u32::MAX ==> a.plus(b).prompt_tokens == u32::MAX,
        a.completion_tokens + b.completion_tokens <= u32::MAX ==> a.plus(b).completion_tokens
            == a.completion_tokens + b.completion_tokens,
        a.completion_tokens + b.completion_tokens > u32::MAX ==> a.plus(b).completion_tokens
            == u32::MAX,
{
}

} // verus!
