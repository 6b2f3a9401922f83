//! Retry with exponential back-off and jitter, and removal of secrets from
//! error texts.
use vstd::prelude::*;
use vstd::string::*;
use crate::decimal::{dec, decimal};
use crate::net::rounding::{spread, spread_by, spread_is_at_most_a_fifth};
use crate::pieces::{lower_ascii_of, next_sep_pos};
use crate::search::{at, contains, has, lemma_next_sep, lower_ascii, lower_ascii_text, next_sep};
use crate::text::{cat2, cat4, chars_of, copy, text_range};

verus! {

/// What stands in place of a line that names a secret header.
pub const REDACTED_LINE: &'static str = "[redacted header]\n";

/// The line names a header that carries a secret.
pub open spec fn secret_line(line: Seq<char>) -> bool {
    has(lower_ascii_text(line), "authorization"@) || has(lower_ascii_text(line), "x-api-key"@)
}

/// The end of the first line: after its line feed, or the end of the text.
pub open spec fn first_line_end(s: Seq<char>) -> int {
    let i = next_sep(s, '\n', 0);
    if i < s.len() {
        i + 1
    } else {
        s.len() as int
    }
}

/// The lines of a text, each with its line feed.
pub open spec fn line_pieces(s: Seq<char>) -> Seq<Seq<char>>
    decreases s.len(),
{
    let e = first_line_end(s);
    if s.len() == 0 || e <= 0 || e > s.len() {
        Seq::empty()
    } else {
        seq![s.take(e)] + line_pieces(s.skip(e))
    }
}

/// A line, or its replacement.
pub open spec fn clean_line(line: Seq<char>) -> Seq<char> {
    if secret_line(line) {
        REDACTED_LINE@
    } else {
        line
    }
}

/// The text with every line that names a secret header replaced.
pub open spec fn redacted(s: Seq<char>) -> Seq<char>
    decreases s.len(),
{
    let e = first_line_end(s);
    if s.len() == 0 || e <= 0 || e > s.len() {
        Seq::empty()
    } else {
        clean_line(s.take(e)) + redacted(s.skip(e))
    }
}

/// Replaces every line that names a secret header.
pub fn redact_secrets(s: &str) -> (r: String)
    ensures
        r@ == redacted(s@),
{
    let v = chars_of(s);
    let n: usize = v.len();
    let mut out = String::new();
    let mut start: usize = 0;
    assert(s@.skip(0) =~= s@);
    assert(out@ + redacted(s@) =~= redacted(s@));
    while start < n
        invariant
            v@ == s@,
            n == v@.len(),
            start <= n,
            out@ + redacted(s@.skip(start as int)) == redacted(s@),
        decreases n - start,
    {
        let k: usize = next_sep_pos(&v, '\n', start);
        let end: usize = if k < n {
            k + 1
        } else {
            n
        };
        let line = text_range(&v, start, end);
        let lower = lower_ascii_of(line.as_str());
        let ghost rest = s@.skip(start as int);
        let ghost before = out@;
        proof {
            lemma_next_sep(s@, '\n', start as int);
            lemma_next_sep(rest, '\n', 0);
            let a = next_sep(rest, '\n', 0);
            let b = next_sep(s@, '\n', start as int);
            if a < b - start {
                assert(rest[a] == s@[a + start]);
            } else if a > b - start {
                assert(rest[b - start] == s@[b]);
            }
            assert(first_line_end(rest) == end - start);
            assert(rest.take(end - start) =~= line@);
            assert(rest.skip(end - start) =~= s@.skip(end as int));
        }
        if contains(lower.as_str(), "authorization") || contains(lower.as_str(), "x-api-key") {
            out.append(REDACTED_LINE);
        } else {
            out.append(line.as_str());
        }
        start = end;
        proof {
            let tail = redacted(s@.skip(start as int));
            assert(before + (clean_line(line@) + tail) =~= before + clean_line(line@) + tail);
        }
    }
    proof {
        assert(s@.skip(start as int) =~= Seq::<char>::empty());
        assert(out@ + Seq::<char>::empty() =~= out@);
    }
    out
}

proof fn lemma_replacement_is_clean()
    ensures
        !secret_line(REDACTED_LINE@),
        REDACTED_LINE@.len() == 18,
        REDACTED_LINE@[17] == '\n',
        forall|i: int| 0 <= i < 17 ==> REDACTED_LINE@[i] != '\n',
{
    reveal_strlit("[redacted header]\n");
    reveal_strlit("authorization");
    reveal_strlit("x-api-key");
    let low = lower_ascii_text(REDACTED_LINE@);
    assert(low.len() == 18);
    assert forall|i: int| !at(low, i, "authorization"@) by {
        if at(low, i, "authorization"@) {
            let w = low.subrange(i, i + 13);
            assert(w[0] == 'a' && w[1] == 'u');
            assert(low[i] == 'a' && low[i + 1] == 'u');
            assert(low[i + 1] == lower_ascii(REDACTED_LINE@[i + 1]));
        }
    }
    assert forall|i: int| !at(low, i, "x-api-key"@) by {
        if at(low, i, "x-api-key"@) {
            let w = low.subrange(i, i + 9);
            assert(w[0] == 'x');
            assert(low[i] == 'x');
            assert(low[i] == lower_ascii(REDACTED_LINE@[i]));
        }
    }
}

/// A text that ends with its only line feed is the first line of what it begins.
proof fn lemma_first_piece(a: Seq<char>, b: Seq<char>)
    requires
        a.len() > 0,
        a.last() == '\n',
        forall|i: int| 0 <= i < a.len() - 1 ==> a[i] != '\n',
    ensures
        line_pieces(a + b) == seq![a] + line_pieces(b),
{
    let s = a + b;
    lemma_next_sep(s, '\n', 0);
    let i = next_sep(s, '\n', 0);
    if i < a.len() - 1 {
        assert(s[i] == a[i]);
    } else if i > a.len() - 1 {
        assert(s[a.len() - 1] == a.last());
    }
    assert(s.take(a.len() as int) =~= a);
    assert(s.skip(a.len() as int) =~= b);
}

/// No line of a redacted text names a secret header.
pub proof fn redacted_text_names_no_secret_header(s: Seq<char>)
    ensures
        forall|i: int|
            0 <= i < line_pieces(redacted(s)).len() ==> !secret_line(
                #[trigger] line_pieces(redacted(s))[i],
            ),
    decreases s.len(),
{
    if s.len() > 0 {
        lemma_replacement_is_clean();
        lemma_next_sep(s, '\n', 0);
        let e = first_line_end(s);
        let line = s.take(e);
        let rest = s.skip(e);
        redacted_text_names_no_secret_header(rest);
        let c = clean_line(line);
        let r = redacted(s);
        if c.last() == '\n' && forall|i: int| 0 <= i < c.len() - 1 ==> c[i] != '\n' {
            lemma_first_piece(c, redacted(rest));
            let more = line_pieces(redacted(rest));
            assert forall|i: int| 0 <= i < line_pieces(r).len() implies !secret_line(
                #[trigger] line_pieces(r)[i],
            ) by {
                if i > 0 {
                    assert(line_pieces(r)[i] == more[i - 1]);
                }
            }
        } else {
            assert(!secret_line(line));
            assert(e == s.len());
            assert(rest =~= Seq::<char>::empty());
            assert(r =~= s);
            assert(line =~= s);
            assert(s.skip(e) =~= Seq::<char>::empty());
            assert(line_pieces(s) =~= seq![s]);
        }
    }
}

/// The next state of the jitter generator.
pub open spec fn xorshift(x: u64) -> u64 {
    let a = x ^ (x << 13);
    let b = a ^ (a >> 7);
    b ^ (b << 17)
}

/// A delay changed by up to a fifth either way; the generator's upper 53 bits say by
/// how much.
pub open spec fn scaled(base_ms: u64, x: u64) -> int {
    spread(base_ms, x >> 11) as int
}

/// A delay with jitter differs from its base by at most a fifth, up to a thousand
/// years.
pub proof fn jitter_stays_within_a_fifth(base_ms: u64, x: u64)
    requires
        base_ms < 35184372088832,
    ensures
        5 * scaled(base_ms, x) <= 6 * base_ms,
        5 * (scaled(base_ms, x) + 1) >= 4 * base_ms,
{
    assert(x >> 11 < 9007199254740992) by (bit_vector);
    spread_is_at_most_a_fifth(base_ms, x >> 11);
}

/// Where the generator starts: from the clock when it has no state yet.
pub open spec fn seed(state: u64, nanos: Option<u64>) -> u64 {
    if state != 0 {
        state
    } else {
        let n = match nanos {
            Some(n) => n,
            None => 0x9E3779B97F4A7C15,
        };
        if n == u64::MAX {
            0
        } else {
            (n + 1) as u64
        }
    }
}

fn seeded(state: u64, nanos: Option<u64>) -> (r: u64)
    ensures
        r == seed(state, nanos),
{
    if state != 0 {
        return state;
    }
    let n: u64 = match nanos {
        Some(n) => n,
        None => 0x9E3779B97F4A7C15,
    };
    n.wrapping_add(1)
}

/// Advances the jitter generator. `nanos` is the clock, if it can be read: it seeds a
/// generator that has no state yet.
pub fn xorshift_jitter(state: &mut u64, nanos: Option<u64>) -> (r: u64)
    ensures
        *final(state) == xorshift(seed(*old(state), nanos)),
        r == *final(state),
{
    let mut x: u64 = seeded(*state, nanos);
    x = x ^ (x << 13);
    x = x ^ (x >> 7);
    x = x ^ (x << 17);
    *state = x;
    x
}

/// A delay with jitter.
pub fn jittered(base_ms: u64, rng_state: &mut u64, nanos: Option<u64>) -> (r: u64)
    ensures
        *final(rng_state) == xorshift(seed(*old(rng_state), nanos)),
        r == scaled(base_ms, *final(rng_state)),
{
    let x: u64 = xorshift_jitter(rng_state, nanos);
    assert(x >> 11 < 9007199254740992) by (bit_vector);
    spread_by(base_ms, x >> 11)
}

/// Why an attempt failed.
#[derive(Debug)]
pub enum RetryError {
    /// The request could not be built.
    Build(String),
    /// The server answered with an error status and a body.
    Status(u16, String),
    /// The connection failed.
    Transport(String),
}

/// What to do after a failed attempt.
#[derive(Debug)]
pub enum RetryStep {
    /// Try again after so many milliseconds.
    Wait(u64),
    /// Fail with an error.
    GiveUp(String),
}

/// Progress of a request that is retried.
#[derive(Clone, Copy, Debug)]
pub struct RetryRun {
    pub max: u32,
    pub attempt: u32,
    pub base_delay: u64,
    pub rng_state: u64,
}

/// The status is worth another attempt.
pub open spec fn retryable(code: u16) -> bool {
    code == 429 || code >= 500
}

/// The error text of a final failure.
pub open spec fn failure_text(e: RetryError) -> Seq<char> {
    match e {
        RetryError::Build(s) => s@,
        RetryError::Status(code, body) => redacted("http "@ + dec(code as nat) + ": "@ + body@),
        RetryError::Transport(t) => redacted("transport: "@ + t@),
    }
}

/// The failure may be tried again.
pub open spec fn may_retry(e: RetryError) -> bool {
    match e {
        RetryError::Build(_) => false,
        RetryError::Status(code, _) => retryable(code),
        RetryError::Transport(_) => true,
    }
}

impl RetryRun {
    /// An attempt is under way.
    pub open spec fn wf(&self) -> bool {
        self.attempt < self.max && self.base_delay <= 8000
    }

    /// The state after a failure that is tried again.
    pub open spec fn after_wait(&self, nanos: Option<u64>) -> RetryRun {
        RetryRun {
            max: self.max,
            attempt: (self.attempt + 1) as u32,
            base_delay: if self.base_delay * 2 > 8000 {
                8000
            } else {
                (self.base_delay * 2) as u64
            },
            rng_state: xorshift(seed(self.rng_state, nanos)),
        }
    }
}

/// Starts a request that is tried at most `max` times.
pub fn with_retry(max: u32) -> (r: Result<RetryRun, String>)
    ensures
        match r {
            Ok(run) => max > 0 && run == (RetryRun {
                max,
                attempt: 0,
                base_delay: 500,
                rng_state: 0,
            }) && run.wf(),
            Err(e) => max == 0 && e@ == "with_retry: max must be >= 1"@,
        },
{
    if max == 0 {
        return Err(copy("with_retry: max must be >= 1"));
    }
    Ok(RetryRun { max, attempt: 0, base_delay: 500, rng_state: 0 })
}

impl RetryRun {
    /// Decides what follows a failed attempt. `nanos` is the clock, if it can be
    /// read.
    pub fn failed(&mut self, error: RetryError, nanos: Option<u64>) -> (r: RetryStep)
        requires
            old(self).wf(),
        ensures
            match r {
                RetryStep::Wait(ms) => {
                    &&& may_retry(error) && old(self).attempt + 1 < old(self).max
                    &&& *final(self) == old(self).after_wait(nanos)
                    &&& ms == scaled(old(self).base_delay, final(self).rng_state)
                    &&& ms <= 9600
                    &&& final(self).wf()
                },
                RetryStep::GiveUp(text) => {
                    &&& !(may_retry(error) && old(self).attempt + 1 < old(self).max)
                    &&& text@ == failure_text(error)
                    &&& *final(self) == *old(self)
                },
            },
    {
        let again: bool = match &error {
            RetryError::Build(_) => false,
            RetryError::Status(code, _) => *code == 429 || *code >= 500,
            RetryError::Transport(_) => true,
        };
        if again && self.attempt + 1 < self.max {
            let ms: u64 = jittered(self.base_delay, &mut self.rng_state, nanos);
            proof {
                jitter_stays_within_a_fifth(self.base_delay, self.rng_state);
            }
            self.attempt = self.attempt + 1;
            self.base_delay = if self.base_delay * 2 > 8000 {
                8000
            } else {
                self.base_delay * 2
            };
            return RetryStep::Wait(ms);
        }
        let text = match error {
            RetryError::Build(e) => e,
            RetryError::Status(code, body) => {
                let n = decimal(code as u64);
                redact_secrets(cat4("http ", n.as_str(), ": ", body.as_str()).as_str())
            },
            RetryError::Transport(t) => redact_secrets(cat2("transport: ", t.as_str()).as_str()),
        };
        RetryStep::GiveUp(text)
    }
}

/// The state after some failures that are tried again, each with its clock.
pub open spec fn after_waits(run: RetryRun, clocks: Seq<Option<u64>>) -> RetryRun
    decreases clocks.len(),
{
    if clocks.len() == 0 {
        run
    } else {
        after_waits(run, clocks.drop_last()).after_wait(clocks.last())
    }
}

/// A request is tried at most as often as allowed: between its attempts lie fewer
/// pauses than that.
pub proof fn a_request_is_tried_at_most_max_times(run: RetryRun, clocks: Seq<Option<u64>>)
    requires
        run.attempt == 0,
        run.wf(),
        forall|i: int|
            0 <= i < clocks.len() ==> (#[trigger] after_waits(run, clocks.take(i))).attempt + 1
                < run.max,
    ensures
        after_waits(run, clocks).attempt == clocks.len(),
        after_waits(run, clocks).wf(),
        clocks.len() < run.max,
    decreases clocks.len(),
{
    if clocks.len() > 0 {
        let k = clocks.len() - 1;
        let before = clocks.drop_last();
        assert(before =~= clocks.take(k));
        assert forall|i: int| 0 <= i < before.len() implies (#[trigger] after_waits(
            run,
            before.take(i),
        )).attempt + 1 < run.max by {
            assert(before.take(i) =~= clocks.take(i));
            assert(after_waits(run, clocks.take(i)).attempt + 1 < run.max);
        }
        a_request_is_tried_at_most_max_times(run, before);
        lemma_max_stays(run, before);
        assert(after_waits(run, clocks.take(k)).attempt + 1 < run.max);
    }
}

proof fn lemma_max_stays(run: RetryRun, clocks: Seq<Option<u64>>)
    ensures
        after_waits(run, clocks).max == run.max,
    decreases clocks.len(),
{
    if clocks.len() > 0 {
        lemma_max_stays(run, clocks.drop_last());
    }
}

/// A generator that has a state goes on from it; a new one starts after the clock.
pub proof fn a_generator_starts_after_the_clock(state: u64, nanos: u64)
    ensures
        state != 0 ==> seed(state, Some(nanos)) == state && seed(state, None) == state,
        nanos < u64::MAX ==> seed(0, Some(nanos)) == nanos + 1,
        xorshift(0) == 0,
        state != 0 ==> xorshift(state) != 0,
{
    assert(0u64 ^ (0u64 << 13) == 0) by (bit_vector);
    assert(0u64 ^ (0u64 >> 7) == 0) by (bit_vector);
    assert(0u64 ^ (0u64 << 17) == 0) by (bit_vector);
    let a = state ^ (state << 13);
    let b = a ^ (a >> 7);
    assert(state != 0 ==> a != 0) by (bit_vector)
        requires
            a == state ^ (state << 13),
    ;
    assert(a != 0 ==> b != 0) by (bit_vector)
        requires
            b == a ^ (a >> 7),
    ;
    assert(b != 0 ==> b ^ (b << 17) != 0) by (bit_vector);
}

} // verus!
