//! Messages of the agent bus, and the subjects on which they travel.
use vstd::prelude::*;
use vstd::string::*;
use crate::ids::{hyphenated, is_random, parse_uuid, random_uuid, uuid_read, uuid_text};
use crate::json::Json;
use crate::pieces::space;
use crate::search::is_space;
use crate::text::{cat3, cat5, chars_of, copy};

verus! {

/// Why a subject could not be made.
#[derive(Debug, PartialEq, Eq)]
pub enum WireError {
    /// The agent's name holds a character that a subject token must not hold.
    InvalidAgentName(String),
}

/// Identifies one dispatch request.
#[derive(Clone, Copy, Debug, PartialEq, Eq, Hash, Structural)]
pub struct RequestId(pub u128);

impl RequestId {
    /// A fresh identifier, drawn at random.
    pub fn new() -> (r: RequestId)
        ensures
            is_random(r.0),
    {
        RequestId(random_uuid())
    }

    /// The identifier's text.
    pub open spec fn text(self) -> Seq<char> {
        hyphenated(self.0)
    }

    /// The identifier as text: hexadecimal digits with hyphens.
    pub fn to_text(&self) -> (r: String)
        ensures
            r@ == self.text(),
            uuid_read(r@) == Ok::<u128, Seq<char>>(self.0),
    {
        uuid_text(self.0)
    }

    /// Reads an identifier.
    pub fn from_text(s: &str) -> (r: Result<RequestId, String>)
        ensures
            match r {
                Ok(id) => uuid_read(s@) == Ok::<u128, Seq<char>>(id.0),
                Err(e) => uuid_read(s@) == Err::<u128, Seq<char>>(e@),
            },
    {
        match parse_uuid(s) {
            Ok(n) => Ok(RequestId(n)),
            Err(e) => Err(e),
        }
    }
}

impl Default for RequestId {
    fn default() -> (r: RequestId)
        ensures
            is_random(r.0),
    {
        RequestId::new()
    }
}

/// A request to an agent.
#[derive(Debug)]
pub struct AgentDispatch {
    pub request_id: RequestId,
    /// What the agent takes for user input.
    pub user_input: String,
    /// Metadata of the caller.
    pub context: Option<Json>,
    /// The subject on which the reply is expected.
    pub reply_to: String,
}

/// The reply to a dispatch.
#[derive(Debug)]
pub struct AgentReply {
    pub request_id: RequestId,
    pub ok: bool,
    pub text: String,
    pub tokens: u32,
    pub duration_ms: u32,
    pub tool_calls: Vec<String>,
    pub error: Option<String>,
}

/// One piece of a reply that is streamed.
#[derive(Debug)]
pub struct AgentToken {
    pub request_id: RequestId,
    /// Position in the stream, from zero.
    pub idx: u32,
    pub text: String,
    /// Whether the stream ends here.
    pub is_final: bool,
}

/// A request to stop working on a dispatch, or on all of them.
#[derive(Debug)]
pub struct AgentCancel {
    pub request_id: Option<RequestId>,
    pub all: bool,
}

impl Default for AgentCancel {
    fn default() -> (r: Self)
        ensures
            r.request_id is None,
            !r.all,
    {
        AgentCancel { request_id: None, all: false }
    }
}

/// A request for approval of an action.
#[derive(Debug)]
pub struct ConfirmRequest {
    pub request_id: RequestId,
    pub tool: String,
    pub args: Json,
    /// What the action is, in a few words.
    pub preview: String,
    /// When the request lapses, in nanoseconds since 1970.
    pub expires_at_ns: u64,
}

/// An approval or a denial.
#[derive(Debug)]
pub struct ConfirmReply {
    /// The identifier of the request, or `*` for the latest one.
    pub request_id: String,
    pub approved: bool,
    pub source: Option<String>,
}

pub const AGENT_DISPATCH_PREFIX: &'static str = "agent.dispatch";

pub const AGENT_TOKEN_PREFIX: &'static str = "agent.token";

pub const AGENT_CANCEL_PREFIX: &'static str = "agent.cancel";

pub const AGENT_RESPONSE_PREFIX: &'static str = "agent.response";

/// Where approval of an action is asked for.
pub const CONFIRM_REQUEST: &'static str = "agnt.confirm.request";

/// Where approval is given or denied.
pub const CONFIRM_REPLY: &'static str = "agnt.confirm.reply";

/// A character that separates or matches tokens of a subject.
pub open spec fn reserved(c: char) -> bool {
    c == '.' || c == '>' || c == '*' || is_space(c)
}

/// The text can stand as one token of a subject.
pub open spec fn is_token(name: Seq<char>) -> bool {
    forall|i: int| 0 <= i < name.len() ==> !reserved(#[trigger] name[i])
}

/// Checks that a name can stand as one token of a subject.
pub fn validate_nats_token(name: &str) -> (r: Result<(), WireError>)
    ensures
        match r {
            Ok(()) => is_token(name@),
            Err(WireError::InvalidAgentName(n)) => !is_token(name@) && n@ == name@,
        },
{
    let v = chars_of(name);
    let n: usize = v.len();
    let mut i: usize = 0;
    while i < n
        invariant
            i <= n,
            n == v@.len(),
            v@ == name@,
            forall|j: int| 0 <= j < i ==> !reserved(#[trigger] name@[j]),
        decreases n - i,
    {
        let c: char = v[i];
        if c == '.' || c == '>' || c == '*' || space(c) {
            assert(reserved(name@[i as int]));
            return Err(WireError::InvalidAgentName(copy(name)));
        }
        i += 1;
    }
    Ok(())
}

/// `<prefix>.<name>`
pub open spec fn subject2(prefix: Seq<char>, name: Seq<char>) -> Seq<char> {
    prefix + "."@ + name
}

/// `<prefix>.<name>.<id>`
pub open spec fn subject3(prefix: Seq<char>, name: Seq<char>, id: Seq<char>) -> Seq<char> {
    prefix + "."@ + name + "."@ + id
}

/// Either the subject, or the name that cannot stand in one.
pub open spec fn subject_or_error(
    name: Seq<char>,
    subject: Seq<char>,
    r: Result<String, WireError>,
) -> bool {
    match r {
        Ok(s) => is_token(name) && s@ == subject,
        Err(WireError::InvalidAgentName(n)) => !is_token(name) && n@ == name,
    }
}

/// The subject on which an agent takes requests.
pub fn dispatch_for(name: &str) -> (r: Result<String, WireError>)
    ensures
        subject_or_error(name@, subject2(AGENT_DISPATCH_PREFIX@, name@), r),
{
    match validate_nats_token(name) {
        Ok(()) => Ok(cat3(AGENT_DISPATCH_PREFIX, ".", name)),
        Err(e) => Err(e),
    }
}

/// The subject on which an agent streams a reply.
pub fn token_for(name: &str, request_id: &RequestId) -> (r: Result<String, WireError>)
    ensures
        subject_or_error(name@, subject3(AGENT_TOKEN_PREFIX@, name@, request_id.text()), r),
{
    match validate_nats_token(name) {
        Ok(()) => {
            let id = request_id.to_text();
            Ok(cat5(AGENT_TOKEN_PREFIX, ".", name, ".", id.as_str()))
        },
        Err(e) => Err(e),
    }
}

/// The subject on which an agent is asked to stop.
pub fn cancel_for(name: &str) -> (r: Result<String, WireError>)
    ensures
        subject_or_error(name@, subject2(AGENT_CANCEL_PREFIX@, name@), r),
{
    match validate_nats_token(name) {
        Ok(()) => Ok(cat3(AGENT_CANCEL_PREFIX, ".", name)),
        Err(e) => Err(e),
    }
}

/// The subject on which a reply is expected.
pub fn response_for(name: &str, request_id: &RequestId) -> (r: Result<String, WireError>)
    ensures
        subject_or_error(name@, subject3(AGENT_RESPONSE_PREFIX@, name@, request_id.text()), r),
{
    match validate_nats_token(name) {
        Ok(()) => {
            let id = request_id.to_text();
            Ok(cat5(AGENT_RESPONSE_PREFIX, ".", name, ".", id.as_str()))
        },
        Err(e) => Err(e),
    }
}

/// The number of dots in a text.
pub open spec fn dots(s: Seq<char>) -> nat
    decreases s.len(),
{
    if s.len() == 0 {
        0
    } else {
        dots(s.drop_last()) + (if s.last() == '.' {
            1nat
        } else {
            0nat
        })
    }
}

proof fn lemma_dots_add(a: Seq<char>, b: Seq<char>)
    ensures
        dots(a + b) == dots(a) + dots(b),
    decreases b.len(),
{
    if b.len() == 0 {
        assert(a + b =~= a);
    } else {
        lemma_dots_add(a, b.drop_last());
        assert((a + b).drop_last() =~= a + b.drop_last());
    }
}

proof fn lemma_no_dots(s: Seq<char>)
    requires
        is_token(s),
    ensures
        dots(s) == 0,
    decreases s.len(),
{
    if s.len() > 0 {
        assert(!reserved(s[s.len() - 1]));
        assert forall|i: int| 0 <= i < s.drop_last().len() implies !reserved(
            #[trigger] s.drop_last()[i],
        ) by {
            assert(!reserved(s[i]));
        }
        lemma_no_dots(s.drop_last());
    }
}

/// A valid name adds exactly one level to a subject: it cannot reach into
/// another agent's subjects.
pub proof fn a_valid_name_adds_one_level(prefix: Seq<char>, name: Seq<char>)
    requires
        is_token(name),
    ensures
        dots(subject2(prefix, name)) == dots(prefix) + 1,
{
    reveal_strlit(".");
    lemma_dots_add(prefix, "."@);
    lemma_dots_add(prefix + "."@, name);
    lemma_no_dots(name);
    assert("."@.drop_last() =~= Seq::<char>::empty());
    assert("."@.last() == '.');
    assert(dots("."@.drop_last()) == 0);
}

/// A name may be one level of a subject when it holds none of the characters that mean
/// something there, and no white space.
pub proof fn a_level_holds_nothing_that_means_something(name: Seq<char>)
    ensures
        is_token(name) <==> forall|i: int|
            0 <= i < name.len() ==> {
                let c = #[trigger] name[i];
                c != '.' && c != '>' && c != '*' && !is_space(c)
            },
{
    if forall|i: int|
        0 <= i < name.len() ==> {
            let c = #[trigger] name[i];
            c != '.' && c != '>' && c != '*' && !is_space(c)
        } {
        assert forall|i: int| 0 <= i < name.len() implies !reserved(#[trigger] name[i]) by {}
    }
    if is_token(name) {
        assert forall|i: int| 0 <= i < name.len() implies {
            let c = #[trigger] name[i];
            c != '.' && c != '>' && c != '*' && !is_space(c)
        } by {
            assert(!reserved(name[i]));
        }
    }
}

/// Subjects are told apart by the name and by the identifier in them.
pub proof fn subjects_are_told_apart(
    prefix: Seq<char>,
    a: Seq<char>,
    b: Seq<char>,
    x: Seq<char>,
    y: Seq<char>,
)
    requires
        is_token(a),
        is_token(b),
    ensures
        subject2(prefix, a) == subject2(prefix, b) ==> a == b,
        subject3(prefix, a, x) == subject3(prefix, b, y) ==> a == b && x == y,
        subject3(prefix, a, x) == subject2(prefix, a).push('.') + x,
        subject2(prefix, a) == prefix.push('.') + a,
{
    reveal_strlit(".");
    let n = prefix.len() as int + 1;
    let s = subject2(prefix, a);
    let t = subject2(prefix, b);
    assert(s =~= prefix.push('.') + a);
    assert(s.skip(n) =~= a);
    assert(t.skip(n) =~= b);
    let p = subject3(prefix, a, x);
    let q = subject3(prefix, b, y);
    assert(p =~= s.push('.') + x);
    if p == q {
        if a.len() < b.len() {
            assert(p[n + a.len()] == '.');
            assert(q[n + a.len()] == b[a.len() as int]);
            assert(reserved('.'));
        } else if b.len() < a.len() {
            assert(q[n + b.len()] == '.');
            assert(p[n + b.len()] == a[b.len() as int]);
            assert(reserved('.'));
        }
        assert(p.subrange(n, n + a.len()) =~= a);
        assert(q.subrange(n, n + b.len()) =~= b);
        assert(p.skip(n + a.len() + 1) =~= x);
        assert(q.skip(n + b.len() + 1) =~= y);
    }
}

/// A subject is given for every valid name, and an error for every other.
pub proof fn only_valid_names_have_subjects(
    name: Seq<char>,
    subject: Seq<char>,
    r: Result<String, WireError>,
)
    requires
        subject_or_error(name, subject, r),
    ensures
        r is Ok <==> is_token(name),
        r is Ok ==> r->Ok_0@ == subject,
        r is Err ==> r->Err_0->InvalidAgentName_0@ == name,
{
}

} // verus!
