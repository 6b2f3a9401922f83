//! Removal of channel markers from a stream of model output.
//!
//! Some chat models write their channel separators as plain text:
//! `<|channel>` opens a hidden channel and `<channel|>` closes it; the
//! symmetric form `<|channel|>` is taken for either. [`HarmonyStripper`] drops
//! every hidden channel and forwards the rest, however the stream is cut into
//! deltas.
use vstd::prelude::*;
use vstd::string::*;
use crate::search::{at, find_from, find_pos, lemma_find_from, lemma_find_is, lemma_find_none};
use crate::text::{
    byte_len, char_width, chars_of, chars_range, fit, lemma_byte_len_add, lemma_byte_len_push,
    lemma_byte_len_bounds, lemma_byte_len_take, lemma_fit, lemma_fit_unique, text_range, width_of,
};

verus! {

/// Opens a hidden channel.
pub const OPEN_MARKER: &'static str = "<|channel>";

/// Closes a hidden channel.
pub const CLOSE_MARKER: &'static str = "<channel|>";

/// Opens a hidden channel, and closes one.
pub const TOGGLE_MARKER: &'static str = "<|channel|>";

/// How many bytes at the end of a delta may belong to an unfinished marker.
pub const MAX_MARKER_LEN: usize = 10;

/// The earlier of the first occurrences of two markers, with its length.
pub open spec fn first_of(s: Seq<char>, a: Seq<char>, b: Seq<char>) -> Option<(int, int)> {
    match (find_from(s, a, 0), find_from(s, b, 0)) {
        (Some(i), Some(j)) => if i <= j {
            Some((i, a.len() as int))
        } else {
            Some((j, b.len() as int))
        },
        (Some(i), None) => Some((i, a.len() as int)),
        (None, Some(j)) => Some((j, b.len() as int)),
        (None, None) => None,
    }
}

/// The first marker that changes the state: a closing one inside a hidden
/// channel, an opening one outside.
pub open spec fn first_marker(s: Seq<char>, in_thought: bool) -> Option<(int, int)> {
    if in_thought {
        first_of(s, CLOSE_MARKER@, TOGGLE_MARKER@)
    } else {
        first_of(s, OPEN_MARKER@, TOGGLE_MARKER@)
    }
}

/// The visible part of a complete text.
pub open spec fn visible(s: Seq<char>, in_thought: bool) -> Seq<char>
    decreases s.len(),
{
    match first_marker(s, in_thought) {
        Some((i, n)) if 0 <= i && 0 < n && i + n <= s.len() => {
            let rest = visible(s.skip(i + n), !in_thought);
            if in_thought {
                rest
            } else {
                s.take(i) + rest
            }
        },
        _ => if in_thought {
            Seq::empty()
        } else {
            s
        },
    }
}

/// How many characters can be released when no marker is complete: the last
/// ten bytes stay, rounded up to whole characters.
pub open spec fn safe_split(s: Seq<char>) -> int {
    if byte_len(s) <= MAX_MARKER_LEN {
        0
    } else {
        fit(s, (byte_len(s) - MAX_MARKER_LEN) as nat) as int
    }
}

/// What one delta releases, what stays in the buffer, and the channel state.
pub open spec fn drain(s: Seq<char>, in_thought: bool) -> (Seq<char>, Seq<char>, bool)
    decreases s.len(),
{
    match first_marker(s, in_thought) {
        Some((i, n)) if 0 <= i && 0 < n && i + n <= s.len() => {
            let rest = drain(s.skip(i + n), !in_thought);
            if in_thought {
                rest
            } else {
                (s.take(i) + rest.0, rest.1, rest.2)
            }
        },
        _ => {
            let k = safe_split(s);
            if in_thought {
                (Seq::empty(), s.skip(k), true)
            } else {
                (s.take(k), s.skip(k), false)
            }
        },
    }
}

pub open spec fn is_ascii_text(s: Seq<char>) -> bool {
    forall|i: int| 0 <= i < s.len() ==> char_width(#[trigger] s[i]) == 1
}

proof fn lemma_ascii_bytes(s: Seq<char>)
    requires
        is_ascii_text(s),
    ensures
        byte_len(s) == s.len(),
    decreases s.len(),
{
    if s.len() > 0 {
        lemma_ascii_bytes(s.drop_last());
    }
}

/// Two markers that never stand at the same place.
pub open spec fn marker_pair(a: Seq<char>, b: Seq<char>) -> bool {
    &&& a.len() == 10
    &&& b.len() == 11
    &&& is_ascii_text(a)
    &&& is_ascii_text(b)
    &&& exists|k: int| 0 <= k < 10 && a[k] != b[k]
}

proof fn lemma_markers()
    ensures
        marker_pair(OPEN_MARKER@, TOGGLE_MARKER@),
        marker_pair(CLOSE_MARKER@, TOGGLE_MARKER@),
{
    reveal_strlit("<|channel>");
    reveal_strlit("<channel|>");
    reveal_strlit("<|channel|>");
    assert(OPEN_MARKER@[9] != TOGGLE_MARKER@[9]);
    assert(CLOSE_MARKER@[1] != TOGGLE_MARKER@[1]);
}

/// What a found marker looks like.
proof fn lemma_first_of(s: Seq<char>, a: Seq<char>, b: Seq<char>)
    requires
        marker_pair(a, b),
    ensures
        match first_of(s, a, b) {
            Some((i, n)) => {
                &&& 0 <= i
                &&& (n == 10 && at(s, i, a)) || (n == 11 && at(s, i, b))
                &&& i + n <= s.len()
                &&& forall|j: int| 0 <= j < i ==> !at(s, j, a) && !at(s, j, b)
            },
            None => forall|j: int| 0 <= j ==> !at(s, j, a) && !at(s, j, b),
        },
{
    lemma_find_from(s, a, 0);
    lemma_find_from(s, b, 0);
}

proof fn lemma_not_both(s: Seq<char>, i: int, a: Seq<char>, b: Seq<char>)
    requires
        marker_pair(a, b),
    ensures
        !(at(s, i, a) && at(s, i, b)),
{
    if at(s, i, a) && at(s, i, b) {
        let k = choose|k: int| 0 <= k < 10 && a[k] != b[k];
        assert(s.subrange(i, i + 10)[k] == s[i + k]);
        assert(s.subrange(i, i + 11)[k] == s[i + k]);
    }
}

proof fn lemma_at_append(s: Seq<char>, t: Seq<char>, i: int, m: Seq<char>)
    requires
        0 <= i,
        i + m.len() <= s.len(),
    ensures
        at(s + t, i, m) == at(s, i, m),
{
    assert((s + t).subrange(i, i + m.len()) =~= s.subrange(i, i + m.len()));
}

proof fn lemma_at_skip(s: Seq<char>, k: int, i: int, m: Seq<char>)
    requires
        0 <= k <= s.len(),
        0 <= i,
    ensures
        at(s.skip(k), i, m) == at(s, i + k, m),
{
    if i + k + m.len() <= s.len() {
        assert(s.skip(k).subrange(i, i + m.len()) =~= s.subrange(i + k, i + k + m.len()));
    }
}

/// A complete marker is found at the same place whatever follows.
proof fn lemma_found_stays(s: Seq<char>, t: Seq<char>, a: Seq<char>, b: Seq<char>)
    requires
        marker_pair(a, b),
        first_of(s, a, b) is Some,
    ensures
        first_of(s + t, a, b) == first_of(s, a, b),
{
    let (i, n) = first_of(s, a, b)->0;
    let x = s + t;
    lemma_first_of(s, a, b);
    lemma_find_from(x, a, 0);
    lemma_find_from(x, b, 0);
    assert forall|j: int| 0 <= j < i implies !at(x, j, a) && !at(x, j, b) by {
        lemma_at_append(s, t, j, a);
        if j + 11 <= s.len() {
            lemma_at_append(s, t, j, b);
        }
    }
    if n == 10 {
        lemma_at_append(s, t, i, a);
        lemma_find_is(x, a, 0, i);
        lemma_not_both(x, i, a, b);
    } else {
        lemma_at_append(s, t, i, b);
        lemma_find_is(x, b, 0, i);
        lemma_not_both(x, i, a, b);
    }
}

/// An unfinished marker lies in the part that stays in the buffer.
proof fn lemma_unfinished_in_tail(s: Seq<char>, t: Seq<char>, i: int, m: Seq<char>)
    requires
        0 <= i <= s.len(),
        m.len() <= 11,
        is_ascii_text(m),
        at(s + t, i, m),
        i + m.len() > s.len(),
    ensures
        safe_split(s) <= i,
{
    if byte_len(s) > MAX_MARKER_LEN {
        let n = s.len() - i;
        let tail = s.skip(i);
        assert forall|j: int| 0 <= j < tail.len() implies char_width(#[trigger] tail[j]) == 1 by {
            assert((s + t).subrange(i, i + m.len())[j] == m[j]);
        }
        lemma_ascii_bytes(tail);
        lemma_byte_len_add(s.take(i), tail);
        assert(s.take(i) + tail =~= s);
        let cap = (byte_len(s) - MAX_MARKER_LEN) as nat;
        lemma_fit(s, cap);
        let k = fit(s, cap) as int;
        if k > i {
            lemma_byte_len_take(s, i, k);
        }
    }
}

/// Without a complete marker, releasing the safe part loses no marker.
proof fn lemma_none_shifts(s: Seq<char>, t: Seq<char>, a: Seq<char>, b: Seq<char>)
    requires
        marker_pair(a, b),
        first_of(s, a, b) is None,
    ensures
        0 <= safe_split(s) <= s.len(),
        match first_of(s.skip(safe_split(s)) + t, a, b) {
            Some((i, n)) => first_of(s + t, a, b) == Some((i + safe_split(s), n)),
            None => first_of(s + t, a, b) is None,
        },
{
    let k = safe_split(s);
    lemma_fit(s, (byte_len(s) - MAX_MARKER_LEN) as nat);
    let x = s + t;
    let y = s.skip(k) + t;
    assert(x.skip(k) =~= y);
    lemma_first_of(s, a, b);
    assert forall|j: int| 0 <= j < k implies !at(x, j, a) && !at(x, j, b) by {
        if j + a.len() <= s.len() {
            lemma_at_append(s, t, j, a);
        } else if at(x, j, a) {
            lemma_unfinished_in_tail(s, t, j, a);
        }
        if j + b.len() <= s.len() {
            lemma_at_append(s, t, j, b);
        } else if at(x, j, b) {
            lemma_unfinished_in_tail(s, t, j, b);
        }
    }
    lemma_find_shift(x, k, a);
    lemma_find_shift(x, k, b);
}

proof fn lemma_find_shift(x: Seq<char>, k: int, m: Seq<char>)
    requires
        0 <= k <= x.len(),
        forall|j: int| 0 <= j < k ==> !at(x, j, m),
    ensures
        match find_from(x.skip(k), m, 0) {
            Some(i) => find_from(x, m, 0) == Some(i + k),
            None => find_from(x, m, 0) is None,
        },
{
    let y = x.skip(k);
    lemma_find_from(y, m, 0);
    match find_from(y, m, 0) {
        Some(i) => {
            lemma_at_skip(x, k, i, m);
            assert forall|j: int| 0 <= j < i + k implies !at(x, j, m) by {
                if j >= k {
                    lemma_at_skip(x, k, j - k, m);
                }
            }
            lemma_find_is(x, m, 0, i + k);
        },
        None => {
            assert forall|j: int| 0 <= j implies !at(x, j, m) by {
                if j >= k {
                    lemma_at_skip(x, k, j - k, m);
                }
            }
            lemma_find_none(x, m, 0);
        },
    }
}

/// Draining a buffer and going on with what it kept shows the same text as
/// reading everything at once.
#[verifier::spinoff_prover]
#[verifier::rlimit(40)]
pub proof fn draining_keeps_the_visible_text(s: Seq<char>, t: Seq<char>, in_thought: bool)
    ensures
        ({
            let (out, kept, state) = drain(s, in_thought);
            visible(s + t, in_thought) == out + visible(kept + t, state)
        }),
    decreases s.len(),
{
    lemma_markers();
    let a = if in_thought {
        CLOSE_MARKER@
    } else {
        OPEN_MARKER@
    };
    let b = TOGGLE_MARKER@;
    let (out, kept, state) = drain(s, in_thought);
    lemma_first_of(s, a, b);
    lemma_first_of(s + t, a, b);
    match first_marker(s, in_thought) {
        Some((i, n)) => {
            lemma_found_stays(s, t, a, b);
            draining_keeps_the_visible_text(s.skip(i + n), t, !in_thought);
            assert((s + t).skip(i + n) =~= s.skip(i + n) + t);
            assert((s + t).take(i) =~= s.take(i));
            let rest = drain(s.skip(i + n), !in_thought);
            assert(s.take(i) + (rest.0 + visible(rest.1 + t, rest.2)) =~= (s.take(i) + rest.0)
                + visible(rest.1 + t, rest.2));
        },
        None => {
            lemma_none_shifts(s, t, a, b);
            let k = safe_split(s);
            let y = s.skip(k) + t;
            lemma_first_of(y, a, b);
            match first_of(y, a, b) {
                Some((i, n)) => {
                    assert((s + t).skip(i + k + n) =~= y.skip(i + n));
                    assert((s + t).take(i + k) =~= s.take(k) + y.take(i));
                    let rest = visible(y.skip(i + n), !in_thought);
                    assert(s.take(k) + y.take(i) + rest =~= s.take(k) + (y.take(i) + rest));
                },
                None => {
                    assert(s + t =~= s.take(k) + y);
                },
            }
            assert(Seq::<char>::empty() + visible(y, true) =~= visible(y, true));
        },
    }
}

/// After a drain the buffer holds no complete marker.
proof fn lemma_drained(s: Seq<char>, in_thought: bool)
    ensures
        ({
            let (out, kept, state) = drain(s, in_thought);
            first_marker(kept, state) is None
        }),
    decreases s.len(),
{
    lemma_markers();
    let a = if in_thought {
        CLOSE_MARKER@
    } else {
        OPEN_MARKER@
    };
    let b = TOGGLE_MARKER@;
    lemma_first_of(s, a, b);
    match first_marker(s, in_thought) {
        Some((i, n)) => {
            lemma_drained(s.skip(i + n), !in_thought);
        },
        None => {
            let k = safe_split(s);
            lemma_none_shifts(s, Seq::empty(), a, b);
            assert(s + Seq::<char>::empty() =~= s);
            assert(s.skip(k) + Seq::<char>::empty() =~= s.skip(k));
        },
    }
}

/// A stream filter that removes hidden channels.
pub struct HarmonyStripper {
    buf: String,
    in_thought: bool,
}

impl HarmonyStripper {
    /// The text that is held back.
    pub closed spec fn held(&self) -> Seq<char> {
        self.buf@
    }

    /// Whether the stream is inside a hidden channel.
    pub closed spec fn hidden(&self) -> bool {
        self.in_thought
    }

    /// The buffer holds no complete marker.
    pub open spec fn wf(&self) -> bool {
        first_marker(self.held(), self.hidden()) is None
    }

    pub fn new() -> (r: Self)
        ensures
            r.wf(),
            r.held() == Seq::<char>::empty(),
            !r.hidden(),
    {
        let r = HarmonyStripper { buf: String::new(), in_thought: false };
        proof {
            lemma_markers();
            lemma_first_of(r.buf@, OPEN_MARKER@, TOGGLE_MARKER@);
        }
        r
    }

    /// Takes one delta and returns the visible text that can be forwarded now.
    /// What may be the beginning of a marker stays in the buffer.
    pub fn process(&mut self, delta: &str) -> (out: String)
        requires
            old(self).wf(),
        ensures
            final(self).wf(),
            delta@.len() == 0 ==> out@.len() == 0 && *final(self) == *old(self),
            delta@.len() > 0 ==> (out@, final(self).held(), final(self).hidden()) == drain(
                old(self).held() + delta@,
                old(self).hidden(),
            ),
            forall|t: Seq<char>|
                #![trigger visible(final(self).held() + t, final(self).hidden())]
                visible(old(self).held() + delta@ + t, old(self).hidden()) == out@ + visible(
                    final(self).held() + t,
                    final(self).hidden(),
                ),
    {
        if delta.is_empty() {
            proof {
                assert forall|t: Seq<char>|
                    #![trigger visible(self.held() + t, self.hidden())]
                    visible(self.held() + delta@ + t, self.hidden()) == Seq::<char>::empty()
                        + visible(self.held() + t, self.hidden()) by {
                    assert(self.held() + delta@ + t =~= self.held() + t);
                    assert(Seq::<char>::empty() + visible(self.held() + t, self.hidden())
                        =~= visible(self.held() + t, self.hidden()));
                }
            }
            return String::new();
        }
        let ghost whole = self.buf@ + delta@;
        let ghost start = self.in_thought;
        self.buf.append(delta);
        let out = self.drain_buffer();
        proof {
            lemma_drained(whole, start);
            assert forall|t: Seq<char>|
                #![trigger visible(self.held() + t, self.hidden())]
                visible(whole + t, start) == out@ + visible(self.held() + t, self.hidden()) by {
                draining_keeps_the_visible_text(whole, t, start);
            }
        }
        out
    }

    fn drain_buffer(&mut self) -> (out: String)
        ensures
            (out@, final(self).held(), final(self).hidden()) == drain(
                old(self).held(),
                old(self).hidden(),
            ),
    {
        let open = chars_of(OPEN_MARKER);
        let close = chars_of(CLOSE_MARKER);
        let toggle = chars_of(TOGGLE_MARKER);
        let mut rest = chars_of(self.buf.as_str());
        let mut out = String::new();
        let ghost all = self.buf@;
        let ghost start = self.in_thought;
        proof {
            lemma_markers();
            assert(out@ + drain(all, start).0 =~= drain(all, start).0);
        }
        loop
            invariant
                all == old(self).held(),
                start == old(self).hidden(),
                open@ == OPEN_MARKER@,
                close@ == CLOSE_MARKER@,
                toggle@ == TOGGLE_MARKER@,
                marker_pair(open@, toggle@),
                marker_pair(close@, toggle@),
                drain(all, start) == ({
                    let (o, b, i) = drain(rest@, self.in_thought);
                    (out@ + o, b, i)
                }),
            decreases rest@.len(),
        {
            let found = if self.in_thought {
                find_first_marker(&rest, &close, &toggle)
            } else {
                find_first_marker(&rest, &open, &toggle)
            };
            let ghost before = rest@;
            let ghost so_far = out@;
            match found {
                Some((i, n)) => {
                    proof {
                        lemma_first_of(before, open@, toggle@);
                        lemma_first_of(before, close@, toggle@);
                    }
                    if !self.in_thought {
                        out.append(text_range(&rest, 0, i).as_str());
                    }
                    assert(before.subrange(0, i as int) =~= before.take(i as int));
                    assert(i + n <= rest.len());
                    rest = chars_range(&rest, i + n, rest.len());
                    assert(rest@ =~= before.skip(i + n));
                    self.in_thought = !self.in_thought;
                    proof {
                        let d = drain(rest@, self.in_thought);
                        assert(so_far + (before.take(i as int) + d.0) =~= (so_far + before.take(
                            i as int,
                        )) + d.0);
                    }
                },
                None => {
                    let k: usize = safe_split_at(&rest, MAX_MARKER_LEN);
                    if !self.in_thought {
                        out.append(text_range(&rest, 0, k).as_str());
                        assert(before.subrange(0, k as int) =~= before.take(k as int));
                    } else {
                        assert(so_far + Seq::<char>::empty() =~= so_far);
                    }
                    self.buf = text_range(&rest, k, rest.len());
                    assert(self.buf@ =~= before.skip(k as int));
                    return out;
                },
            }
        }
    }

    /// Releases what is held back at the end of the stream; inside a hidden
    /// channel it is discarded.
    pub fn flush(&mut self) -> (out: String)
        requires
            old(self).wf(),
        ensures
            final(self).wf(),
            out@ == visible(old(self).held(), old(self).hidden()),
            out@ == (if old(self).hidden() {
                Seq::<char>::empty()
            } else {
                old(self).held()
            }),
            final(self).held() == Seq::<char>::empty(),
            final(self).hidden() == old(self).hidden(),
    {
        let out = if self.in_thought {
            String::new()
        } else {
            self.buf.clone()
        };
        self.buf = String::new();
        proof {
            lemma_markers();
            lemma_first_of(self.buf@, OPEN_MARKER@, TOGGLE_MARKER@);
            lemma_first_of(self.buf@, CLOSE_MARKER@, TOGGLE_MARKER@);
        }
        out
    }

    /// The visible part of a complete text.
    pub fn strip_full(text: &str) -> (out: String)
        ensures
            out@ == visible(text@, false),
    {
        let mut s = Self::new();
        let mut out = s.process(text);
        let ghost kept = s.held();
        let tail = s.flush();
        out.append(tail.as_str());
        proof {
            draining_keeps_the_visible_text(text@, Seq::empty(), false);
            assert(text@ + Seq::<char>::empty() =~= text@);
            assert(Seq::<char>::empty() + text@ =~= text@);
            assert(kept + Seq::<char>::empty() =~= kept);
        }
        out
    }
}

impl Default for HarmonyStripper {
    fn default() -> (r: Self)
        ensures
            r.wf(),
            r.held() == Seq::<char>::empty(),
            !r.hidden(),
    {
        Self::new()
    }
}

/// The earlier of the first occurrences of two markers, with its length.
pub fn find_first_marker(buf: &Vec<char>, a: &Vec<char>, b: &Vec<char>) -> (r: Option<(usize, usize)>)
    ensures
        match r {
            Some((i, n)) => first_of(buf@, a@, b@) == Some((i as int, n as int)),
            None => first_of(buf@, a@, b@) is None,
        },
{
    let x = find_pos(buf, a, 0);
    let y = find_pos(buf, b, 0);
    match (x, y) {
        (Some(i), Some(j)) => if i <= j {
            Some((i, a.len()))
        } else {
            Some((j, b.len()))
        },
        (Some(i), None) => Some((i, a.len())),
        (None, Some(j)) => Some((j, b.len())),
        (None, None) => None,
    }
}

/// The largest number of characters that leaves at least `tail` bytes behind.
pub fn safe_split_at(buf: &Vec<char>, tail: usize) -> (r: usize)
    ensures
        r <= buf@.len(),
        r == (if byte_len(buf@) <= tail {
            0
        } else {
            fit(buf@, (byte_len(buf@) - tail) as nat)
        }),
{
    let n: usize = buf.len();
    let mut need: usize = tail;
    let mut k: usize = n;
    assert(buf@.take(n as int) =~= buf@);
    while k > 0 && need > 0
        invariant
            k <= n,
            n == buf@.len(),
            need <= tail,
            need > 0 ==> byte_len(buf@.take(k as int)) + (tail - need) == byte_len(buf@),
            need == 0 ==> byte_len(buf@.take(k as int)) + tail <= byte_len(buf@),
            k < n ==> byte_len(buf@.take(k as int + 1)) + tail > byte_len(buf@),
        decreases k,
    {
        k -= 1;
        proof {
            assert(buf@.take(k as int + 1) =~= buf@.take(k as int).push(buf@[k as int]));
            lemma_byte_len_push(buf@.take(k as int), buf@[k as int]);
        }
        let w: usize = width_of(buf[k]);
        if w >= need {
            need = 0;
        } else {
            need -= w;
        }
    }
    proof {
        if byte_len(buf@) > tail {
            lemma_fit_unique(buf@, (byte_len(buf@) - tail) as nat, k as int);
        } else if need == 0 {
            lemma_byte_len_bounds(buf@.take(k as int));
        }
    }
    k
}

/// The states that a stream of deltas goes through: the text released by all
/// of them, with what stays in the buffer.
pub open spec fn stream(deltas: Seq<Seq<char>>, held: Seq<char>, hidden: bool) -> (
    Seq<char>,
    Seq<char>,
    bool,
)
    decreases deltas.len(),
{
    if deltas.len() == 0 {
        (Seq::empty(), held, hidden)
    } else {
        let (out, kept, state) = stream(deltas.drop_last(), held, hidden);
        if deltas.last().len() == 0 {
            (out, kept, state)
        } else {
            let (o, b, i) = drain(kept + deltas.last(), state);
            (out + o, b, i)
        }
    }
}

/// All deltas in a row.
pub open spec fn flat(deltas: Seq<Seq<char>>) -> Seq<char>
    decreases deltas.len(),
{
    if deltas.len() == 0 {
        Seq::empty()
    } else {
        flat(deltas.drop_last()) + deltas.last()
    }
}

proof fn lemma_stream(deltas: Seq<Seq<char>>, t: Seq<char>)
    ensures
        ({
            let (out, kept, state) = stream(deltas, Seq::empty(), false);
            &&& visible(flat(deltas) + t, false) == out + visible(kept + t, state)
            &&& first_marker(kept, state) is None
        }),
    decreases deltas.len(),
{
    lemma_markers();
    if deltas.len() == 0 {
        lemma_first_of(Seq::empty(), OPEN_MARKER@, TOGGLE_MARKER@);
        assert(Seq::<char>::empty() + t =~= t);
        assert(Seq::<char>::empty() + visible(t, false) =~= visible(t, false));
    } else {
        let d = deltas.last();
        let (out, kept, state) = stream(deltas.drop_last(), Seq::empty(), false);
        lemma_stream(deltas.drop_last(), d + t);
        assert(flat(deltas) + t =~= flat(deltas.drop_last()) + (d + t));
        assert(kept + (d + t) =~= kept + d + t);
        if d.len() == 0 {
            assert(d + t =~= t);
        } else {
            draining_keeps_the_visible_text(kept + d, t, state);
            lemma_drained(kept + d, state);
            let (o, b, i) = drain(kept + d, state);
            assert(out + (o + visible(b + t, i)) =~= out + o + visible(b + t, i));
        }
    }
}

/// However a text is cut into deltas, the deltas' output followed by the final
/// flush is the visible part of the whole text.
pub proof fn chunking_is_invisible(deltas: Seq<Seq<char>>)
    ensures
        ({
            let (out, kept, hidden) = stream(deltas, Seq::empty(), false);
            out + (if hidden {
                Seq::<char>::empty()
            } else {
                kept
            }) == visible(flat(deltas), false)
        }),
{
    lemma_stream(deltas, Seq::empty());
    let (out, kept, hidden) = stream(deltas, Seq::empty(), false);
    assert(flat(deltas) + Seq::<char>::empty() =~= flat(deltas));
    assert(kept + Seq::<char>::empty() =~= kept);
}

/// A text without an opening marker passes unchanged.
pub proof fn unmarked_text_is_visible(s: Seq<char>)
    requires
        !crate::search::has(s, OPEN_MARKER@),
        !crate::search::has(s, TOGGLE_MARKER@),
    ensures
        visible(s, false) == s,
{
    lemma_markers();
    lemma_first_of(s, OPEN_MARKER@, TOGGLE_MARKER@);
    lemma_find_none(s, OPEN_MARKER@, 0);
    lemma_find_none(s, TOGGLE_MARKER@, 0);
}

/// A marker begins with its only angle bracket of that kind.
spec fn opens_once(m: Seq<char>) -> bool {
    m.len() > 0 && m[0] == '<' && forall|k: int| 0 < k < m.len() ==> #[trigger] m[k] != '<'
}

/// The first marker after a text without any is the one that follows it.
proof fn lemma_marker_follows(a: Seq<char>, m: Seq<char>, r: Seq<char>, x: Seq<char>, y: Seq<char>)
    requires
        marker_pair(x, y),
        opens_once(x),
        opens_once(y),
        m == x || m == y,
        forall|j: int| !at(a, j, x) && !at(a, j, y),
    ensures
        first_of(a + m + r, x, y) == Some((a.len() as int, m.len() as int)),
{
    let s = a + m + r;
    let n = a.len() as int;
    assert(s.subrange(n, n + m.len()) =~= m);
    lemma_not_both(s, n, x, y);
    assert(s[n] == '<');
    assert(s.take(n) =~= a);
    assert forall|j: int| 0 <= j < n implies !at(s, j, x) && !at(s, j, y) by {
        lemma_not_inside(a, s, j, x);
        lemma_not_inside(a, s, j, y);
    }
    lemma_find_from(s, x, 0);
    lemma_find_from(s, y, 0);
    if m == x {
        lemma_find_is(s, x, 0, n);
    } else {
        lemma_find_is(s, y, 0, n);
    }
}

proof fn lemma_not_inside(a: Seq<char>, s: Seq<char>, j: int, x: Seq<char>)
    requires
        opens_once(x),
        0 <= j < a.len() < s.len(),
        s.take(a.len() as int) == a,
        s[a.len() as int] == '<',
        !at(a, j, x),
    ensures
        !at(s, j, x),
{
    if at(s, j, x) {
        let n = a.len() as int;
        if j + x.len() > n {
            assert(s.subrange(j, j + x.len())[n - j] == s[n]);
            assert(x[n - j] != '<');
        } else {
            assert(a.subrange(j, j + x.len()) =~= s.subrange(j, j + x.len()));
        }
    }
}

/// What stands between a marker that opens a thought and the next one that closes it
/// is cut out with both markers, what stands before stays, and reading goes on after
/// it; a thought that is never closed is cut out to the end.
pub proof fn thoughts_are_cut_out(
    a: Seq<char>,
    opener: Seq<char>,
    b: Seq<char>,
    closer: Seq<char>,
    c: Seq<char>,
)
    requires
        opener == "<|channel>"@ || opener == "<|channel|>"@,
        closer == "<channel|>"@ || closer == "<|channel|>"@,
        forall|j: int| !at(a, j, "<|channel>"@) && !at(a, j, "<|channel|>"@),
        forall|j: int| !at(b, j, "<channel|>"@) && !at(b, j, "<|channel|>"@),
    ensures
        visible(a + opener + b + closer + c, false) == a + visible(c, false),
        visible(a + opener + b, false) == a,
        visible(a, false) == a,
{
    lemma_markers();
    reveal_strlit("<|channel>");
    reveal_strlit("<channel|>");
    reveal_strlit("<|channel|>");
    let rest = b + closer + c;
    let s = a + opener + rest;
    assert(a + opener + b + closer + c =~= s);
    lemma_marker_follows(a, opener, rest, OPEN_MARKER@, TOGGLE_MARKER@);
    assert(s.take(a.len() as int) =~= a);
    assert(s.skip(a.len() as int + opener.len()) =~= rest);
    lemma_marker_follows(b, closer, c, CLOSE_MARKER@, TOGGLE_MARKER@);
    assert(rest.skip(b.len() as int + closer.len()) =~= c);
    assert(visible(s, false) == a + visible(rest, true));
    assert(visible(rest, true) == visible(c, false));
    let t = a + opener + b;
    lemma_marker_follows(a, opener, b, OPEN_MARKER@, TOGGLE_MARKER@);
    assert(t.take(a.len() as int) =~= a);
    assert(t.skip(a.len() as int + opener.len()) =~= b);
    lemma_find_none(b, CLOSE_MARKER@, 0);
    lemma_find_none(b, TOGGLE_MARKER@, 0);
    assert(visible(b, true) =~= Seq::<char>::empty());
    assert(visible(t, false) =~= a);
    lemma_find_none(a, OPEN_MARKER@, 0);
    lemma_find_none(a, TOGGLE_MARKER@, 0);
}

/// Little of a stream is held back: no more than could still be the beginning of a
/// marker, up to a whole character.
pub proof fn little_is_held_back(s: Seq<char>, in_thought: bool)
    ensures
        ({
            let (out, kept, state) = drain(s, in_thought);
            byte_len(kept) < 14
        }),
    decreases s.len(),
{
    match first_marker(s, in_thought) {
        Some((i, n)) if 0 <= i && 0 < n && i + n <= s.len() => {
            little_is_held_back(s.skip(i + n), !in_thought);
        },
        _ => {
            let k = safe_split(s);
            if byte_len(s) > 10 {
                let cap = (byte_len(s) - 10) as nat;
                lemma_fit(s, cap);
                lemma_byte_len_add(s.take(k), s.skip(k));
                assert(s.take(k) + s.skip(k) =~= s);
                crate::text::clip_is_longest_prefix(s, cap);
                if k < s.len() {
                    lemma_byte_len_take(s, k, k + 1);
                }
            } else {
                assert(s.skip(0) =~= s);
            }
        },
    }
}

} // verus!
