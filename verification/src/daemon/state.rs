//! Sessions of the daemon.
use vstd::prelude::*;
use vstd::string::*;
use crate::order::{largest_at, largest_first};
use crate::table::Table;
use crate::text::{byte_len, copy, size};

verus! {

/// Bytes that a session's identifier may have.
pub const MAX_SESSION_ID_LEN: usize = 64;

/// Sessions that may exist at a time.
pub const MAX_SESSIONS: usize = 10000;

/// What is kept of a session. Times are nanoseconds since 1970.
#[derive(Clone, Copy, Debug)]
pub struct SessionRecord {
    pub created_at: i64,
    pub last_activity: i64,
    pub request_count: u64,
}

/// A session as it is listed.
#[derive(Debug)]
pub struct SessionInfo {
    pub id: String,
    pub created_at: i64,
    pub last_activity: i64,
    pub request_count: u64,
}

/// Why a session is refused.
#[derive(Clone, Copy, Debug, PartialEq, Eq, Structural)]
pub enum SessionError {
    /// The identifier is not valid.
    BadRequest,
    /// There are too many sessions.
    TooManyRequests,
}

/// An identifier is valid: letters, digits, `-` and `_`, at least one and not too
/// many.
pub open spec fn valid_id(id: Seq<char>) -> bool {
    id.len() > 0 && byte_len(id) <= MAX_SESSION_ID_LEN && crate::tools::dispatch::name_ok(id)
}

/// Whether a session's identifier is valid.
pub fn validate_session_id(id: &str) -> (r: bool)
    ensures
        r == valid_id(id@),
{
    !id.is_empty() && size(id) <= MAX_SESSION_ID_LEN && crate::tools::dispatch::valid_agent_name(id)
}

/// The sessions of the daemon.
pub struct DmnState {
    pub sessions: Table<SessionRecord>,
}

/// A session after one more request.
pub open spec fn touched(sessions: Map<Seq<char>, SessionRecord>, id: Seq<char>, now: i64) -> SessionRecord {
    if sessions.contains_key(id) {
        let s = sessions[id];
        SessionRecord {
            created_at: s.created_at,
            last_activity: now,
            request_count: if s.request_count < u64::MAX {
                (s.request_count + 1) as u64
            } else {
                s.request_count
            },
        }
    } else {
        SessionRecord { created_at: now, last_activity: now, request_count: 1 }
    }
}

/// Why a request for a session is refused, if it is.
pub open spec fn refusal(sessions: Map<Seq<char>, SessionRecord>, id: Seq<char>) -> Option<SessionError> {
    if !valid_id(id) {
        Some(SessionError::BadRequest)
    } else if sessions.dom().len() >= MAX_SESSIONS && !sessions.contains_key(id) {
        Some(SessionError::TooManyRequests)
    } else {
        None
    }
}

impl DmnState {
    /// There are not too many sessions.
    pub open spec fn wf(&self) -> bool {
        self.sessions.wf() && self.sessions@.dom().finite() && self.sessions@.dom().len()
            <= MAX_SESSIONS
    }

    pub fn new() -> (r: Self)
        ensures
            r.wf(),
            r.sessions@ == Map::<Seq<char>, SessionRecord>::empty(),
    {
        let r = DmnState { sessions: Table::new() };
        proof {
            assert(r.sessions@.dom() =~= Set::empty());
        }
        r
    }

    /// Takes up a session, or begins one.
    pub fn get_or_create_session(&mut self, session_id: &str, now: i64) -> (r: Result<
        String,
        SessionError,
    >)
        requires
            old(self).wf(),
        ensures
            final(self).wf(),
            match refusal(old(self).sessions@, session_id@) {
                Some(e) => r == Err::<String, SessionError>(e) && final(self).sessions@ == old(
                    self,
                ).sessions@,
                None => {
                    &&& r is Ok && r->Ok_0@ == session_id@
                    &&& final(self).sessions@ == old(self).sessions@.insert(
                        session_id@,
                        touched(old(self).sessions@, session_id@, now),
                    )
                },
            },
    {
        if !validate_session_id(session_id) {
            return Err(SessionError::BadRequest);
        }
        let known: bool = self.sessions.contains_key(session_id);
        if self.sessions.len() >= MAX_SESSIONS && !known {
            return Err(SessionError::TooManyRequests);
        }
        let record = match self.sessions.get(session_id) {
            Some(s) => SessionRecord {
                created_at: s.created_at,
                last_activity: now,
                request_count: s.request_count.saturating_add(1),
            },
            None => SessionRecord { created_at: now, last_activity: now, request_count: 1 },
        };
        let ghost before = self.sessions@;
        self.sessions.insert(copy(session_id), record);
        proof {
            assert(self.sessions@.dom() =~= before.dom().insert(session_id@));
            if before.contains_key(session_id@) {
                assert(before.dom().insert(session_id@) =~= before.dom());
            }
        }
        Ok(copy(session_id))
    }

    /// The sessions, the one used last first.
    pub fn list(&self) -> (r: Vec<SessionInfo>)
        ensures
            r@.len() == self.sessions.list().len(),
            ({
                let e = self.sessions.list();
                let keys = Seq::new(e.len(), |i: int| e[i].1.last_activity as i128);
                forall|k: int|
                    0 <= k < r@.len() ==> {
                        let s = #[trigger] r@[k];
                        let x = e[largest_at(keys, k)];
                        &&& s.id@ == x.0@
                        &&& s.created_at == x.1.created_at
                        &&& s.last_activity == x.1.last_activity
                        &&& s.request_count == x.1.request_count
                    }
            }),
            forall|a: int, b: int|
                0 <= a < b < r@.len() ==> (#[trigger] r@[a]).last_activity >= (
                #[trigger] r@[b]).last_activity,
    {
        let n: usize = self.sessions.size();
        let mut keys: Vec<i128> = Vec::new();
        let mut i: usize = 0;
        let ghost e = self.sessions.list();
        while i < n
            invariant
                i <= n,
                n == e.len(),
                e == self.sessions.list(),
                keys@.len() == i,
                forall|j: int| 0 <= j < i ==> #[trigger] keys@[j] == e[j].1.last_activity as i128,
            decreases n - i,
        {
            keys.push(self.sessions.value_at(i).last_activity as i128);
            i += 1;
        }
        let ghost all = Seq::new(e.len(), |i: int| e[i].1.last_activity as i128);
        assert(keys@ =~= all);
        let order = largest_first(&keys);
        let mut out: Vec<SessionInfo> = Vec::new();
        let mut k: usize = 0;
        while k < n
            invariant
                k <= n,
                n == e.len(),
                e == self.sessions.list(),
                order@.len() == n,
                out@.len() == k,
                forall|k: int|
                    0 <= k < order@.len() ==> 0 <= #[trigger] order@[k] < n && order@[k]
                        == largest_at(all, k),
                forall|j: int|
                    0 <= j < k ==> {
                        let s = #[trigger] out@[j];
                        let x = e[largest_at(all, j)];
                        &&& s.id@ == x.0@
                        &&& s.created_at == x.1.created_at
                        &&& s.last_activity == x.1.last_activity
                        &&& s.request_count == x.1.request_count
                    },
            decreases n - k,
        {
            let i: usize = order[k];
            let v = *self.sessions.value_at(i);
            let info = SessionInfo {
                id: copy(self.sessions.key_at(i)),
                created_at: v.created_at,
                last_activity: v.last_activity,
                request_count: v.request_count,
            };
            out.push(info);
            k += 1;
        }
        proof {
            assert forall|a: int, b: int| 0 <= a < b < out@.len() implies (
            #[trigger] out@[a]).last_activity >= (#[trigger] out@[b]).last_activity by {
                crate::order::earlier_places_hold_larger_keys(all, a, b);
                assert(0 <= order@[a] < n && 0 <= order@[b] < n);
            }
        }
        out
    }
}

/// The system prompt of an agent that is given none.
pub fn system_prompt(given: Option<&str>) -> (r: String)
    ensures
        r@ == (match given {
            Some(s) => s@,
            None => "You are a helpful assistant."@,
        }),
{
    match given {
        Some(s) => copy(s),
        None => copy("You are a helpful assistant."),
    }
}

/// A session that exists is never turned away for want of room.
pub proof fn known_sessions_may_continue(sessions: Map<Seq<char>, SessionRecord>, id: Seq<char>)
    requires
        valid_id(id),
        sessions.contains_key(id),
    ensures
        refusal(sessions, id) is None,
{
}

} // verus!
