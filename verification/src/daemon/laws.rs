//! Which sessions and callers the daemon admits, and what it sends.
use vstd::prelude::*;
use crate::daemon::config::{as_user, backend_of, provider_backend, Config};
use crate::daemon::handlers::{shown_result, whole_seconds};
use crate::daemon::middleware::presents;
use crate::daemon::state::{refusal, touched, valid_id, SessionError, SessionRecord};
use crate::decimal::dec;
use crate::message::{opt_text, MessageView};
use crate::net::backend::Kind;
use crate::text::{byte_len, clip, clip_is_longest_prefix};

verus! {

/// An identifier is valid when it is made of letters, digits, dashes and underscores,
/// one to sixty-four of them.
pub proof fn identifiers_are_short_and_plain(id: Seq<char>)
    ensures
        valid_id(id) <==> 1 <= id.len() && byte_len(id) <= 64 && forall|i: int|
            0 <= i < id.len() ==> {
                let c = #[trigger] id[i];
                ('A' <= c <= 'Z') || ('a' <= c <= 'z') || ('0' <= c <= '9') || c == '-' || c == '_'
            },
{
    if forall|i: int|
        0 <= i < id.len() ==> {
            let c = #[trigger] id[i];
            ('A' <= c <= 'Z') || ('a' <= c <= 'z') || ('0' <= c <= '9') || c == '-' || c == '_'
        } {
        assert(crate::tools::dispatch::name_ok(id));
    }
}

/// A request is refused when its identifier is not valid, or when it would begin a
/// session more than ten thousand; a session that is known always goes on.
pub proof fn sessions_are_refused_for_two_reasons(
    sessions: Map<Seq<char>, SessionRecord>,
    id: Seq<char>,
)
    ensures
        refusal(sessions, id) == Some(SessionError::BadRequest) <==> !valid_id(id),
        refusal(sessions, id) == Some(SessionError::TooManyRequests) <==> valid_id(id)
            && !sessions.contains_key(id) && sessions.dom().len() >= 10_000,
        refusal(sessions, id) is None <==> valid_id(id) && (sessions.contains_key(id)
            || sessions.dom().len() < 10_000),
{
}

/// Each request of a session is counted once and is its latest activity; when the
/// session began does not change.
pub proof fn each_request_is_counted(
    sessions: Map<Seq<char>, SessionRecord>,
    id: Seq<char>,
    first: i64,
    second: i64,
)
    requires
        !sessions.contains_key(id),
    ensures
        ({
            let a = touched(sessions, id, first);
            let b = touched(sessions.insert(id, a), id, second);
            &&& a.created_at == first
            &&& a.last_activity == first
            &&& a.request_count == 1
            &&& b.created_at == first
            &&& b.last_activity == second
            &&& b.request_count == 2
        }),
        forall|s: SessionRecord|
            s.request_count < u64::MAX ==> {
                let t = #[trigger] touched(sessions.insert(id, s), id, second);
                t.created_at == s.created_at && t.last_activity == second && t.request_count
                    == s.request_count + 1
            },
{
    assert forall|s: SessionRecord| s.request_count < u64::MAX implies {
        let t = #[trigger] touched(sessions.insert(id, s), id, second);
        t.created_at == s.created_at && t.last_activity == second && t.request_count
            == s.request_count + 1
    } by {
        assert(sessions.insert(id, s)[id] == s);
    }
}

/// A caller is admitted with the token behind its scheme, and with nothing else.
pub proof fn only_the_token_admits(header: Seq<char>, token: Seq<char>, other: Seq<char>)
    ensures
        !presents(None, token),
        presents(Some("Bearer "@ + token), token),
        presents(Some("Bearer "@ + other), token) ==> other == token,
        presents(Some(header), token) ==> header.len() == 7 + token.len() && header.skip(7) == token
            && header.take(7) == "Bearer "@,
{
    reveal_strlit("Bearer ");
    assert(("Bearer "@ + token).skip(7) =~= token);
    assert(("Bearer "@ + other).skip(7) =~= other);
    assert(("Bearer "@ + token).take(7) =~= "Bearer "@);
}

/// A result of up to two kibibytes is shown whole; of a longer one its beginning is,
/// with the number of bytes that are left out.
pub proof fn long_results_are_cut(s: Seq<char>)
    ensures
        byte_len(s) <= 2048 ==> shown_result(s) == s,
        byte_len(s) > 2048 ==> {
            let c = clip(s, 2048);
            &&& byte_len(c) <= 2048
            &&& c == s.take(c.len() as int)
            &&& shown_result(s) == c + "… ["@ + dec((byte_len(s) - byte_len(c)) as nat)
                + " bytes truncated]"@
        },
{
    clip_is_longest_prefix(s, 2048);
}

/// Seconds are counted whole, towards zero.
pub proof fn seconds_are_whole(ns: int)
    ensures
        ns >= 0 ==> whole_seconds(ns) * 1_000_000_000 <= ns < (whole_seconds(ns) + 1)
            * 1_000_000_000,
        whole_seconds(-ns) == -whole_seconds(ns),
{
}

/// A tool's result is sent as the user's with everything else as it is; other messages
/// are sent as they are.
pub proof fn only_the_role_of_tool_results_changes(m: MessageView)
    ensures
        m.role == "tool"@ ==> as_user(m).role == "user"@,
        m.role != "tool"@ ==> as_user(m) == m,
        as_user(m).content == m.content,
        as_user(m).tool_calls == m.tool_calls,
        as_user(m).tool_call_id == m.tool_call_id,
        as_user(m).name == m.name,
        as_user(m).usage == m.usage,
{
}

/// A provider is reached at its own address unless another is configured, with the key
/// of the configuration before that of the environment; without one where it takes one,
/// and for an unknown provider, there is an error.
pub proof fn a_provider_is_reached_with_its_key(c: Config, env_key: Option<Seq<char>>)
    ensures
        ({
            let key = if c.api_key is Some {
                opt_text(c.api_key)
            } else {
                env_key
            };
            let b = backend_of(c, env_key);
            let local = c.provider@ == "ollama"@;
            let openai = c.provider@ == "openai"@;
            let anthropic = c.provider@ == "anthropic"@;
            &&& b is Ok <==> local || (openai || anthropic) && key is Some
            &&& b is Ok ==> b->Ok_0.model == c.model@
            &&& b is Ok && c.base_url is Some ==> b->Ok_0.base_url == c.base_url->0@
            &&& local && c.base_url is None ==> b->Ok_0.base_url == "http://localhost:11434/v1"@
            &&& b is Ok && openai && c.base_url is None ==> b->Ok_0.base_url
                == "https://api.openai.com/v1"@
            &&& b is Ok && anthropic && c.base_url is None ==> b->Ok_0.base_url
                == "https://api.anthropic.com/v1"@
            &&& local ==> b->Ok_0.api_key is None && b->Ok_0.kind == Kind::Openai
            &&& b is Ok && openai ==> b->Ok_0.api_key == key && b->Ok_0.kind == Kind::Openai
            &&& b is Ok && anthropic ==> b->Ok_0.api_key == key && b->Ok_0.kind == Kind::Anthropic
        }),
{
    reveal_strlit("ollama");
    reveal_strlit("openai");
    reveal_strlit("anthropic");
    assert("ollama"@[1] != "openai"@[1]);
    assert("anthropic"@.len() == 9 && "openai"@.len() == 6 && "ollama"@.len() == 6);
    let key = if c.api_key is Some {
        opt_text(c.api_key)
    } else {
        env_key
    };
    assert(provider_backend(c.provider@, c.model@, key) is Ok == backend_of(c, env_key) is Ok);
}

} // verus!
