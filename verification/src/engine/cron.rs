//! Cron expressions: parsing and the next time at which one fires.
use vstd::prelude::*;
use vstd::string::*;
use chrono::{Datelike, Timelike};
use crate::calendar::{a_day_has_one_date, day_number, is_date};
use crate::decimal::{parse_uint, read_uint};
use crate::engine::task::CronSchedule;
use crate::pieces::{lemma_split_on_nonempty, next_sep_pos, split, split_words};
use crate::search::{lemma_next_sep, next_sep, split_on, starts_with, strip_prefix, texts, words};
use crate::text::{chars_of, same};

verus! {

/// The numbers from `a` to `b`.
pub open spec fn span(a: int, b: int) -> Seq<u32>
    decreases b - a + 1,
{
    if a > b {
        Seq::empty()
    } else {
        span(a, b - 1).push(b as u32)
    }
}

/// The numbers from `a` up to `b` in steps.
pub open spec fn steps(a: int, b: int, step: nat) -> Seq<u32>
    decreases
        (if a > b {
            0
        } else {
            b - a + 1
        }),
    when step > 0
{
    if a > b {
        Seq::empty()
    } else {
        seq![a as u32] + steps(a + step, b, step)
    }
}

/// What one part of a field adds, or that it is malformed.
pub open spec fn part_values(part: Seq<char>, min: u32, max: u32) -> Option<Seq<u32>> {
    if starts_with(part, "*/"@) {
        match read_uint(part.skip("*/"@.len() as int), u32::MAX as nat) {
            Some(step) => if step == 0 {
                None
            } else {
                Some(steps(min as int, max as int, step))
            },
            None => None,
        }
    } else if part.contains('-') {
        let ends = split_on(part, '-');
        match (read_uint(ends[0], u32::MAX as nat), read_uint(ends[1], u32::MAX as nat)) {
            (Some(a), Some(b)) => if a < min || b > max || a > b {
                None
            } else {
                Some(span(a as int, b as int))
            },
            _ => None,
        }
    } else {
        match read_uint(part, u32::MAX as nat) {
            Some(v) => if v < min || v > max {
                None
            } else {
                Some(seq![v as u32])
            },
            None => None,
        }
    }
}

/// The values of the parts of a field, after those found before. A part `*`
/// stands for the whole range and ends the field.
pub open spec fn parts_values(parts: Seq<Seq<char>>, found: Seq<u32>, min: u32, max: u32) -> Option<
    Seq<u32>,
>
    decreases parts.len(),
{
    if parts.len() == 0 {
        if found.len() == 0 {
            None
        } else {
            Some(found)
        }
    } else if parts[0] == "*"@ {
        Some(span(min as int, max as int))
    } else {
        match part_values(parts[0], min, max) {
            Some(vs) => parts_values(parts.drop_first(), found + vs, min, max),
            None => None,
        }
    }
}

/// The values that a field of a cron expression stands for.
pub open spec fn field_values(field: Seq<char>, min: u32, max: u32) -> Option<Seq<u32>> {
    parts_values(split_on(field, ','), Seq::empty(), min, max)
}

fn push_span(out: &mut Vec<u32>, a: u32, b: u32)
    ensures
        final(out)@ == old(out)@ + span(a as int, b as int),
{
    let ghost before = out@;
    if a > b {
        assert(out@ =~= before + span(a as int, b as int));
        return ;
    }
    let mut v: u32 = a;
    assert(before + span(a as int, a - 1) =~= before);
    loop
        invariant
            a <= v <= b,
            before == old(out)@,
            out@ == before + span(a as int, v - 1),
        decreases b - v,
    {
        out.push(v);
        assert(out@ =~= before + span(a as int, v as int));
        if v == b {
            return ;
        }
        v += 1;
    }
}

fn push_steps(out: &mut Vec<u32>, min: u32, max: u32, step: u32)
    requires
        step > 0,
    ensures
        final(out)@ == old(out)@ + steps(min as int, max as int, step as nat),
{
    let ghost before = out@;
    let ghost all = before + steps(min as int, max as int, step as nat);
    let mut v: u32 = min;
    loop
        invariant
            step > 0,
            all == old(out)@ + steps(min as int, max as int, step as nat),
            out@ + steps(v as int, max as int, step as nat) == all,
        decreases
                (if v > max {
                    0
                } else {
                    max - v + 1
                }),
    {
        if v > max {
            assert(out@ =~= all);
            return ;
        }
        let ghost prev = out@;
        out.push(v);
        assert(prev + (seq![v] + steps(v + step, max as int, step as nat)) =~= out@ + steps(
            v + step,
            max as int,
            step as nat,
        ));
        match v.checked_add(step) {
            Some(w) => {
                v = w;
            },
            None => {
                assert(steps(v + step, max as int, step as nat) =~= Seq::empty());
                assert(out@ =~= all);
                return ;
            },
        }
    }
}

fn parse_u32(s: &str) -> (r: Option<u32>)
    ensures
        match r {
            Some(n) => read_uint(s@, u32::MAX as nat) == Some(n as nat),
            None => read_uint(s@, u32::MAX as nat) is None,
        },
{
    match parse_uint(s, u32::MAX as u64) {
        Some(n) => Some(n as u32),
        None => None,
    }
}

fn has_dash(s: &str) -> (r: bool)
    ensures
        r == s@.contains('-'),
{
    let v = chars_of(s);
    let k: usize = next_sep_pos(&v, '-', 0);
    proof {
        lemma_next_sep(s@, '-', 0);
        if k < v@.len() {
            assert(s@[k as int] == '-');
        }
    }
    k < v.len()
}

/// Adds the values of one part of a field; false where it is malformed.
fn push_part(out: &mut Vec<u32>, part: &str, min: u32, max: u32) -> (ok: bool)
    ensures
        match part_values(part@, min, max) {
            Some(vs) => ok && final(out)@ == old(out)@ + vs,
            None => !ok,
        },
{
    if let Some(rest) = strip_prefix(part, "*/") {
        match parse_u32(rest.as_str()) {
            Some(step) => {
                if step == 0 {
                    return false;
                }
                push_steps(out, min, max, step);
                true
            },
            None => false,
        }
    } else if has_dash(part) {
        let ends = split(part, '-');
        proof {
            lemma_dash_makes_two(part@);
            assert(texts(ends@)[0] == ends@[0]@);
            assert(texts(ends@)[1] == ends@[1]@);
        }
        let a = parse_u32(ends[0].as_str());
        let b = parse_u32(ends[1].as_str());
        match (a, b) {
            (Some(a), Some(b)) => {
                if a < min || b > max || a > b {
                    return false;
                }
                push_span(out, a, b);
                true
            },
            _ => false,
        }
    } else {
        match parse_u32(part) {
            Some(v) => {
                if v < min || v > max {
                    return false;
                }
                let ghost before = out@;
                out.push(v);
                assert(out@ =~= before + seq![v]);
                true
            },
            None => false,
        }
    }
}

proof fn lemma_dash_makes_two(s: Seq<char>)
    requires
        s.contains('-'),
    ensures
        split_on(s, '-').len() >= 2,
{
    lemma_next_sep(s, '-', 0);
    let i = next_sep(s, '-', 0);
    let k = choose|k: int| 0 <= k < s.len() && s[k] == '-';
    assert(i < s.len());
    lemma_split_on_nonempty(s.skip(i + 1), '-');
}

/// The values that a field of a cron expression stands for.
pub fn parse_field(field: &str, min: u32, max: u32) -> (r: Option<Vec<u32>>)
    ensures
        match r {
            Some(v) => field_values(field@, min, max) == Some(v@),
            None => field_values(field@, min, max) is None,
        },
{
    let parts = split(field, ',');
    let mut values: Vec<u32> = Vec::new();
    let n: usize = parts.len();
    let mut i: usize = 0;
    let ghost all = texts(parts@);
    assert(all.skip(0) =~= all);
    assert(values@ =~= Seq::empty());
    while i < n
        invariant
            i <= n,
            n == parts@.len(),
            all == texts(parts@),
            field_values(field@, min, max) == parts_values(all.skip(i as int), values@, min, max),
        decreases n - i,
    {
        assert(all.skip(i as int)[0] == parts@[i as int]@);
        assert(all.skip(i as int).drop_first() =~= all.skip(i as int + 1));
        let part = parts[i].as_str();
        if same(part, "*") {
            let mut whole: Vec<u32> = Vec::new();
            push_span(&mut whole, min, max);
            assert(whole@ =~= span(min as int, max as int));
            return Some(whole);
        }
        let ok: bool = push_part(&mut values, part, min, max);
        if !ok {
            return None;
        }
        i += 1;
    }
    assert(all.skip(i as int) =~= Seq::empty());
    if values.len() == 0 {
        None
    } else {
        Some(values)
    }
}

pub open spec fn all_within(s: Seq<u32>, min: u32, max: u32) -> bool {
    forall|i: int| 0 <= i < s.len() ==> min <= #[trigger] s[i] <= max
}

proof fn lemma_span_within(a: int, b: int, min: u32, max: u32)
    requires
        min <= a,
        b <= max,
    ensures
        all_within(span(a, b), min, max),
    decreases b - a + 1,
{
    if a <= b {
        lemma_span_within(a, b - 1, min, max);
    }
}

proof fn lemma_steps_within(a: int, step: nat, min: u32, max: u32)
    requires
        min <= a,
        step > 0,
    ensures
        all_within(steps(a, max as int, step), min, max),
    decreases
        (if a > max {
            0
        } else {
            max - a + 1
        }),
{
    if a <= max {
        lemma_steps_within(a + step, step, min, max);
        let rest = steps(a + step, max as int, step);
        assert forall|i: int| 0 <= i < steps(a, max as int, step).len() implies min
            <= #[trigger] steps(a, max as int, step)[i] <= max by {
            if i > 0 {
                assert(steps(a, max as int, step)[i] == rest[i - 1]);
            }
        }
    }
}

proof fn lemma_parts_within(parts: Seq<Seq<char>>, found: Seq<u32>, min: u32, max: u32)
    requires
        all_within(found, min, max),
    ensures
        match parts_values(parts, found, min, max) {
            Some(vs) => all_within(vs, min, max),
            None => true,
        },
    decreases parts.len(),
{
    if parts.len() > 0 {
        if parts[0] == "*"@ {
            lemma_span_within(min as int, max as int, min, max);
        } else if let Some(vs) = part_values(parts[0], min, max) {
            assert(all_within(vs, min, max)) by {
                if starts_with(parts[0], "*/"@) {
                    let step = read_uint(parts[0].skip("*/"@.len() as int), u32::MAX as nat)->0;
                    lemma_steps_within(min as int, step, min, max);
                } else if parts[0].contains('-') {
                    let ends = split_on(parts[0], '-');
                    let a = read_uint(ends[0], u32::MAX as nat)->0;
                    let b = read_uint(ends[1], u32::MAX as nat)->0;
                    lemma_span_within(a as int, b as int, min, max);
                }
            }
            assert(all_within(found + vs, min, max));
            lemma_parts_within(parts.drop_first(), found + vs, min, max);
        }
    }
}

/// Every value of a field lies within the field's bounds.
pub proof fn field_values_lie_within_bounds(field: Seq<char>, min: u32, max: u32)
    ensures
        match field_values(field, min, max) {
            Some(vs) => all_within(vs, min, max),
            None => true,
        },
{
    lemma_parts_within(split_on(field, ','), Seq::empty(), min, max);
}

/// The values of the five fields of a schedule.
pub struct FireSets {
    pub minutes: Vec<u32>,
    pub hours: Vec<u32>,
    pub days: Vec<u32>,
    pub months: Vec<u32>,
    pub weekdays: Vec<u32>,
}

/// The content of a [`FireSets`].
pub struct SetsView {
    pub minutes: Seq<u32>,
    pub hours: Seq<u32>,
    pub days: Seq<u32>,
    pub months: Seq<u32>,
    pub weekdays: Seq<u32>,
}

impl View for FireSets {
    type V = SetsView;

    open spec fn view(&self) -> SetsView {
        SetsView {
            minutes: self.minutes@,
            hours: self.hours@,
            days: self.days@,
            months: self.months@,
            weekdays: self.weekdays@,
        }
    }
}

/// The fields of a cron expression: minute, hour, day of the month, month and
/// day of the week.
pub open spec fn schedule_sets(expression: Seq<char>) -> Option<SetsView> {
    let f = words(expression);
    if f.len() != 5 {
        None
    } else {
        match (
            field_values(f[0], 0, 59),
            field_values(f[1], 0, 23),
            field_values(f[2], 1, 31),
            field_values(f[3], 1, 12),
            field_values(f[4], 0, 6),
        ) {
            (Some(minutes), Some(hours), Some(days), Some(months), Some(weekdays)) => Some(
                SetsView { minutes, hours, days, months, weekdays },
            ),
            _ => None,
        }
    }
}

/// Reads the five fields of a cron expression.
pub fn parse_schedule(expression: &str) -> (r: Option<FireSets>)
    ensures
        match r {
            Some(s) => schedule_sets(expression@) == Some(s@),
            None => schedule_sets(expression@) is None,
        },
{
    let f = split_words(expression);
    assert(f@.len() == words(expression@).len());
    if f.len() != 5 {
        return None;
    }
    proof {
        let w = words(expression@);
        assert(w[0] == f@[0]@ && w[1] == f@[1]@ && w[2] == f@[2]@ && w[3] == f@[3]@ && w[4]
            == f@[4]@);
    }
    let minutes = parse_field(f[0].as_str(), 0, 59)?;
    let hours = parse_field(f[1].as_str(), 0, 23)?;
    let days = parse_field(f[2].as_str(), 1, 31)?;
    let months = parse_field(f[3].as_str(), 1, 12)?;
    let weekdays = parse_field(f[4].as_str(), 0, 6)?;
    Some(FireSets { minutes, hours, days, months, weekdays })
}

/// The last second that a date can have: the end of the year 262142.
pub const LAST_SECOND: i64 = 8210266876799;

/// How many minutes ahead are looked at: those of 366 days.
pub const SEARCH_MINUTES: u32 = 527040;

/// Minute, hour, day, month and day of the week (from Sunday) of a moment in UTC
/// by `chrono::DateTime::from_timestamp`: the clock by division, the date as the
/// one in the Gregorian calendar that has the day's number.
#[verifier::external_body]
fn utc_fields(secs: i64) -> (r: (u32, u32, u32, u32, u32))
    requires
        0 <= secs <= LAST_SECOND,
    ensures
        r.0 == secs / 60 % 60,
        r.1 == secs / 3600 % 24,
        r.4 == (secs / 86400 + 4) % 7,
        exists|y: int|
            is_date(y, r.3 as int, r.2 as int) && #[trigger] day_number(y, r.3 as int, r.2 as int)
                == secs / 86400,
{
    let t = chrono::DateTime::from_timestamp(secs, 0).unwrap_or_default().naive_utc();
    (t.minute(), t.hour(), t.day(), t.month(), t.weekday().num_days_from_sunday())
}

/// `chrono::Utc::now`: the current time in seconds since 1970 and nanoseconds. It is
/// a time that `chrono` can represent, and not before 1970: it panics there.
#[verifier::external_body]
fn utc_now() -> (r: (i64, u32))
    ensures
        0 <= r.0 <= LAST_SECOND,
        r.1 < 1000000000,
{
    let t = chrono::Utc::now();
    (t.timestamp(), t.timestamp_subsec_nanos())
}

/// The schedule fires in minute `m` after the beginning of 1970.
pub open spec fn fires(sets: SetsView, m: int) -> bool {
    &&& sets.minutes.contains((m % 60) as u32)
    &&& sets.hours.contains((m / 60 % 24) as u32)
    &&& sets.weekdays.contains(((m / 1440 + 4) % 7) as u32)
    &&& exists|y: int, mo: u32, d: u32|
        is_date(y, mo as int, d as int) && #[trigger] day_number(y, mo as int, d as int) == m
            / 1440 && sets.months.contains(mo) && sets.days.contains(d)
}

/// The first of `n` minutes from `m` on in which the schedule fires.
pub open spec fn next_minute(sets: SetsView, m: int, n: nat) -> Option<int>
    decreases n,
{
    if n == 0 {
        None
    } else if fires(sets, m) {
        Some(m)
    } else {
        next_minute(sets, m + 1, (n - 1) as nat)
    }
}

/// The nanoseconds until the schedule fires next.
pub open spec fn fire_delay(expression: Seq<char>, secs: int, nanos: int) -> Option<int> {
    match schedule_sets(expression) {
        None => None,
        Some(sets) => match next_minute(sets, secs / 60 + 1, SEARCH_MINUTES as nat) {
            Some(m) => Some((m * 60 - secs) * 1000000000 - nanos),
            None => None,
        },
    }
}

fn member(v: &Vec<u32>, x: u32) -> (r: bool)
    ensures
        r == v@.contains(x),
{
    let n: usize = v.len();
    let mut i: usize = 0;
    while i < n
        invariant
            i <= n,
            n == v@.len(),
            forall|j: int| 0 <= j < i ==> v@[j] != x,
        decreases n - i,
    {
        if v[i] == x {
            return true;
        }
        i += 1;
    }
    false
}

fn fires_at(sets: &FireSets, secs: i64) -> (r: bool)
    requires
        0 <= secs <= LAST_SECOND,
        secs % 60 == 0,
    ensures
        r == fires(sets@, secs as int / 60),
{
    let (minute, hour, day, month, weekday) = utc_fields(secs);
    let ghost m = secs as int / 60;
    proof {
        assert(secs / 3600 == m / 60);
        assert(secs / 86400 == m / 1440);
        let y = choose|y: int|
            is_date(y, month as int, day as int) && #[trigger] day_number(
                y,
                month as int,
                day as int,
            ) == secs / 86400;
        assert forall|y2: int, mo: u32, d: u32|
            is_date(y2, mo as int, d as int) && #[trigger] day_number(y2, mo as int, d as int) == m
                / 1440 implies mo == month && d == day by {
            a_day_has_one_date(y, month as int, day as int, y2, mo as int, d as int);
        }
    }
    member(&sets.minutes, minute) && member(&sets.hours, hour) && member(&sets.days, day) && member(
        &sets.months,
        month,
    ) && member(&sets.weekdays, weekday)
}

/// The nanoseconds from a given moment until a schedule fires next; `None`
/// where the expression is malformed or nothing fires within 366 days.
pub fn next_fire_from(schedule: &CronSchedule, secs: i64, nanos: u32) -> (r: Option<u64>)
    requires
        0 <= secs <= LAST_SECOND - 31708800,
        nanos < 1000000000,
    ensures
        match r {
            Some(d) => fire_delay(schedule.expression@, secs as int, nanos as int) == Some(d as int),
            None => fire_delay(schedule.expression@, secs as int, nanos as int) is None,
        },
{
    let sets = match parse_schedule(schedule.expression.as_str()) {
        Some(s) => s,
        None => {
            return None;
        },
    };
    let first: i64 = (secs / 60 + 1) * 60;
    let mut i: u32 = 0;
    while i < SEARCH_MINUTES
        invariant
            i <= SEARCH_MINUTES,
            0 <= secs <= LAST_SECOND - 31708800,
            nanos < 1000000000,
            first == (secs / 60 + 1) * 60,
            fire_delay(schedule.expression@, secs as int, nanos as int) == (match next_minute(
                sets@,
                secs / 60 + 1 + i,
                (SEARCH_MINUTES - i) as nat,
            ) {
                Some(m) => Some((m * 60 - secs) * 1000000000 - nanos),
                None => None,
            }),
        decreases SEARCH_MINUTES - i,
    {
        let at: i64 = first + 60 * (i as i64);
        assert(at / 60 == secs / 60 + 1 + i);
        assert(at % 60 == 0);
        if fires_at(&sets, at) {
            let wait: u64 = (at - secs) as u64;
            return Some(wait * 1000000000 - nanos as u64);
        }
        i += 1;
    }
    None
}

/// The nanoseconds until a schedule fires next, from the current time. In the last
/// 367 days that a date can have, nothing fires.
pub fn next_fire(schedule: &CronSchedule) -> (r: Option<u64>)
    ensures
        exists|secs: int, nanos: int|
            0 <= secs <= LAST_SECOND && 0 <= nanos < 1000000000 && (match r {
                Some(d) => #[trigger] fire_delay(schedule.expression@, secs, nanos) == Some(
                    d as int,
                ),
                None => secs > LAST_SECOND - 31708800 || fire_delay(
                    schedule.expression@,
                    secs,
                    nanos,
                ) is None,
            }),
{
    let (secs, nanos) = utc_now();
    let ghost delay = fire_delay(schedule.expression@, secs as int, nanos as int);
    if secs > LAST_SECOND - 31708800 {
        return None;
    }
    next_fire_from(schedule, secs, nanos)
}

} // verus!
