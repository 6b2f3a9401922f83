//! Which moments a schedule names, and when it fires next.
use vstd::prelude::*;
use crate::calendar::{day_number, is_date};
use crate::decimal::{dec, is_digit, lemma_dec_digits, read_uint, reading_inverts_rendering};
use crate::engine::cron::{
    field_values, fire_delay, fires, next_minute, part_values, parts_values, schedule_sets, span,
    steps, SetsView,
};
use crate::search::{split_on, starts_with, words};
use crate::text_laws::{a_text_is_cut_at_each_separator, free_of};

verus! {

/// A range holds the numbers from its first to its last, in order.
pub proof fn a_range_holds_what_lies_in_it(a: int, b: int, x: u32)
    requires
        0 <= a,
        b <= u32::MAX,
    ensures
        span(a, b).contains(x) <==> a <= x <= b,
        a <= b ==> span(a, b).len() == b - a + 1,
        a <= b ==> forall|i: int| 0 <= i < span(a, b).len() ==> #[trigger] span(a, b)[i] == a + i,
    decreases b - a + 1,
{
    if a <= b {
        a_range_holds_what_lies_in_it(a, b - 1, x);
        let s = span(a, b);
        let p = span(a, b - 1);
        if a <= x <= b {
            if x == b {
                assert(s[p.len() as int] == x);
            } else {
                let i = choose|i: int| 0 <= i < p.len() && p[i] == x;
                assert(s[i] == x);
            }
        }
        if s.contains(x) {
            let i = choose|i: int| 0 <= i < s.len() && s[i] == x;
            if i < p.len() {
                assert(p[i] == x);
                assert(p.contains(x));
            }
        }
        if a > b - 1 {
            assert(p.len() == 0);
        }
    }
}

/// Steps hold every so-manieth number from the first on, up to the last.
pub proof fn steps_hold_every_nth_number(a: int, b: int, step: nat, x: u32)
    requires
        0 <= a,
        b <= u32::MAX,
        step > 0,
    ensures
        steps(a, b, step).contains(x) <==> a <= x <= b && exists|k: nat|
            x == a + #[trigger] (k * step),
    decreases
        (if a > b {
            0
        } else {
            b - a + 1
        }),
{
    let s = steps(a, b, step);
    if a <= b {
        steps_hold_every_nth_number(a + step, b, step, x);
        let rest = steps(a + step, b, step);
        assert(s =~= seq![a as u32] + rest);
        if s.contains(x) {
            let i = choose|i: int| 0 <= i < s.len() && s[i] == x;
            if i == 0 {
                assert(x == a + 0nat * step);
            } else {
                assert(rest[i - 1] == x);
                assert(rest.contains(x));
                let k = choose|k: nat| x == a + step + #[trigger] (k * step);
                assert((k + 1) * step == k * step + step) by (nonlinear_arith);
                assert(x == a + ((k + 1) as nat) * step);
            }
        }
        if a <= x <= b && exists|k: nat| x == a + #[trigger] (k * step) {
            let k = choose|k: nat| x == a + #[trigger] (k * step);
            if k == 0 {
                assert(k * step == 0);
                assert(s[0] == x);
            } else {
                let j = (k - 1) as nat;
                assert(j * step == k * step - step) by (nonlinear_arith)
                    requires
                        j == k - 1,
                ;
                assert(j * step >= 0) by (nonlinear_arith)
                    requires
                        j >= 0,
                        step >= 0,
                ;
                assert(x == a + step + j * step);
                assert(rest.contains(x));
                let i = choose|i: int| 0 <= i < rest.len() && rest[i] == x;
                assert(s[i + 1] == x);
            }
        }
    } else {
        assert(s.len() == 0);
    }
}

proof fn lemma_digits_have_no_sign(n: nat)
    ensures
        free_of(dec(n), '-'),
        free_of(dec(n), ','),
        free_of(dec(n), '*'),
        dec(n).len() > 0,
{
    lemma_dec_digits(n);
    assert forall|i: int| 0 <= i < dec(n).len() implies #[trigger] dec(n)[i] != '-' && dec(n)[i]
        != ',' && dec(n)[i] != '*' by {
        assert(is_digit(dec(n)[i]));
    }
}

/// What the parts of a field name: a number itself, two numbers with a dash all that lie
/// between them, a star and a number every so-manieth. A number outside the bounds, or
/// a range the wrong way round, is an error.
pub proof fn parts_name_numbers(a: u32, b: u32, min: u32, max: u32)
    ensures
        part_values(dec(a as nat), min, max) == (if min <= a <= max {
            Some(seq![a])
        } else {
            None
        }),
        part_values(dec(a as nat).push('-') + dec(b as nat), min, max) == (if min <= a <= b <= max {
            Some(span(a as int, b as int))
        } else {
            None
        }),
        part_values("*/"@ + dec(a as nat), min, max) == (if a > 0 {
            Some(steps(min as int, max as int, a as nat))
        } else {
            None
        }),
{
    reveal_strlit("*/");
    let top = u32::MAX as nat;
    let x = dec(a as nat);
    let y = dec(b as nat);
    reading_inverts_rendering(a as nat, top);
    reading_inverts_rendering(b as nat, top);
    lemma_digits_have_no_sign(a as nat);
    lemma_digits_have_no_sign(b as nat);
    assert(!starts_with(x, "*/"@)) by {
        if starts_with(x, "*/"@) {
            assert(x.subrange(0, 2)[0] == x[0]);
        }
    }
    assert(!x.contains('-'));
    let r = x.push('-') + y;
    assert(!starts_with(r, "*/"@)) by {
        if starts_with(r, "*/"@) {
            assert(r.subrange(0, 2)[0] == x[0]);
        }
    }
    assert(r[x.len() as int] == '-');
    assert(r.contains('-'));
    a_text_is_cut_at_each_separator(x, y, '-');
    a_text_is_cut_at_each_separator(y, y, '-');
    let ends = split_on(r, '-');
    assert(ends =~= seq![x] + seq![y]);
    assert(ends[0] == x && ends[1] == y);
    let s = "*/"@ + x;
    assert(s.subrange(0, 2) =~= "*/"@);
    assert(s.skip(2) =~= x);
}

/// A star names every number, and parts with commas between them name what any of them
/// names; one part that is an error makes the field one.
pub proof fn a_field_names_what_its_parts_name(
    parts: Seq<Seq<char>>,
    found: Seq<u32>,
    min: u32,
    max: u32,
    x: u32,
)
    requires
        forall|i: int| 0 <= i < parts.len() ==> #[trigger] parts[i] != "*"@,
    ensures
        parts.len() > 0 || found.len() > 0 ==> (parts_values(parts, found, min, max) is Some ==> (
        forall|i: int|
            0 <= i < parts.len() ==> part_values(#[trigger] parts[i], min, max) is Some)),
        parts_values(parts, found, min, max) is Some ==> (parts_values(
            parts,
            found,
            min,
            max,
        )->0.contains(x) <==> found.contains(x) || exists|i: int|
            0 <= i < parts.len() && part_values(#[trigger] parts[i], min, max)->0.contains(x)),
        (forall|i: int|
            0 <= i < parts.len() ==> (part_values(#[trigger] parts[i], min, max) is Some
                && part_values(parts[i], min, max)->0.len() > 0)) && (parts.len() > 0 || found.len()
            > 0) ==> parts_values(parts, found, min, max) is Some,
    decreases parts.len(),
{
    if parts.len() > 0 {
        let rest = parts.drop_first();
        assert forall|i: int| 0 <= i < rest.len() implies #[trigger] rest[i] != "*"@ by {
            assert(rest[i] == parts[i + 1]);
        }
        match part_values(parts[0], min, max) {
            None => {},
            Some(vs) => {
                let now = found + vs;
                a_field_names_what_its_parts_name(rest, now, min, max, x);
                assert(now.contains(x) <==> found.contains(x) || vs.contains(x)) by {
                    if found.contains(x) {
                        let i = choose|i: int| 0 <= i < found.len() && found[i] == x;
                        assert(now[i] == x);
                    }
                    if vs.contains(x) {
                        let i = choose|i: int| 0 <= i < vs.len() && vs[i] == x;
                        assert(now[found.len() + i] == x);
                    }
                    if now.contains(x) {
                        let i = choose|i: int| 0 <= i < now.len() && now[i] == x;
                        if i >= found.len() {
                            assert(vs[i - found.len()] == x);
                        } else {
                            assert(found[i] == x);
                        }
                    }
                }
                let all = parts_values(parts, found, min, max);
                if all is Some {
                    assert forall|i: int| 0 <= i < parts.len() implies part_values(
                        #[trigger] parts[i],
                        min,
                        max,
                    ) is Some by {
                        if i > 0 {
                            assert(rest[i - 1] == parts[i]);
                            if rest.len() > 0 || now.len() > 0 {
                                assert(part_values(rest[i - 1], min, max) is Some);
                            }
                        }
                    }
                    if exists|i: int|
                        0 <= i < rest.len() && part_values(#[trigger] rest[i], min, max)->0.contains(
                            x,
                        ) {
                        let i = choose|i: int|
                            0 <= i < rest.len() && part_values(
                                #[trigger] rest[i],
                                min,
                                max,
                            )->0.contains(x);
                        assert(parts[i + 1] == rest[i]);
                    }
                    if exists|i: int|
                        0 <= i < parts.len() && part_values(
                            #[trigger] parts[i],
                            min,
                            max,
                        )->0.contains(x) {
                        let i = choose|i: int|
                            0 <= i < parts.len() && part_values(
                                #[trigger] parts[i],
                                min,
                                max,
                            )->0.contains(x);
                        if i > 0 {
                            assert(rest[i - 1] == parts[i]);
                        }
                    }
                }
                if forall|i: int|
                    0 <= i < parts.len() ==> (part_values(#[trigger] parts[i], min, max) is Some
                        && part_values(parts[i], min, max)->0.len() > 0) {
                    assert forall|i: int| 0 <= i < rest.len() implies part_values(
                        #[trigger] rest[i],
                        min,
                        max,
                    ) is Some && part_values(rest[i], min, max)->0.len() > 0 by {
                        assert(rest[i] == parts[i + 1]);
                    }
                    assert(part_values(parts[0], min, max)->0.len() > 0);
                }
            },
        }
    }
}

/// A field that is a star names every number within its bounds.
pub proof fn a_star_names_every_number(min: u32, max: u32)
    ensures
        field_values("*"@, min, max) == Some(span(min as int, max as int)),
{
    reveal_strlit("*");
    a_text_is_cut_at_each_separator("*"@, "*"@, ',');
    assert(split_on("*"@, ',')[0] == "*"@);
}

/// A schedule has five fields: minute, hour, day, month and weekday, each with its
/// bounds; any other number of fields, or a field that is an error, makes it none.
pub proof fn a_schedule_has_five_fields(expression: Seq<char>)
    ensures
        ({
            let f = words(expression);
            let sets = schedule_sets(expression);
            &&& f.len() != 5 ==> sets is None
            &&& f.len() == 5 ==> {
                &&& sets is Some <==> field_values(f[0], 0, 59) is Some && field_values(
                    f[1],
                    0,
                    23,
                ) is Some && field_values(f[2], 1, 31) is Some && field_values(f[3], 1, 12) is Some
                    && field_values(f[4], 0, 6) is Some
                &&& sets is Some ==> {
                    &&& Some(sets->0.minutes) == field_values(f[0], 0, 59)
                    &&& Some(sets->0.hours) == field_values(f[1], 0, 23)
                    &&& Some(sets->0.days) == field_values(f[2], 1, 31)
                    &&& Some(sets->0.months) == field_values(f[3], 1, 12)
                    &&& Some(sets->0.weekdays) == field_values(f[4], 0, 6)
                }
            }
        }),
{
}

proof fn lemma_minute_parts(day: int, hour: int, minute: int)
    requires
        0 <= hour < 24,
        0 <= minute < 60,
    ensures
        ({
            let m = day * 1440 + hour * 60 + minute;
            m / 1440 == day && m % 60 == minute && m / 60 % 24 == hour
        }),
{
    let m = day * 1440 + hour * 60 + minute;
    assert(m / 60 == day * 24 + hour);
}

/// A minute, counted from the beginning of 1970, is named by a schedule when its minute,
/// hour, weekday, month and day all are. The first day was a Thursday.
pub proof fn a_minute_is_named_by_all_its_parts(
    sets: SetsView,
    y: int,
    mo: u32,
    d: u32,
    hour: u32,
    minute: u32,
)
    requires
        is_date(y, mo as int, d as int),
        day_number(y, mo as int, d as int) >= 0,
        hour < 24,
        minute < 60,
    ensures
        ({
            let day = day_number(y, mo as int, d as int);
            fires(sets, day * 1440 + hour * 60 + minute) <==> sets.minutes.contains(minute)
                && sets.hours.contains(hour) && sets.days.contains(d) && sets.months.contains(mo)
                && sets.weekdays.contains(((day + 4) % 7) as u32)
        }),
{
    let day = day_number(y, mo as int, d as int);
    let m = day * 1440 + hour * 60 + minute;
    lemma_minute_parts(day, hour as int, minute as int);
    if exists|y: int, mo: u32, d: u32|
        is_date(y, mo as int, d as int) && #[trigger] day_number(y, mo as int, d as int) == m / 1440
            && sets.months.contains(mo) && sets.days.contains(d) {
        let (y2, mo2, d2) = choose|y: int, mo: u32, d: u32|
            is_date(y, mo as int, d as int) && #[trigger] day_number(y, mo as int, d as int) == m
                / 1440 && sets.months.contains(mo) && sets.days.contains(d);
        crate::calendar::a_day_has_one_date(
            y,
            mo as int,
            d as int,
            y2,
            mo2 as int,
            d2 as int,
        );
    }
}

/// The minute that is found is the first one that the schedule names; none is found
/// where it names none of those that were looked at.
pub proof fn the_first_minute_is_found(sets: SetsView, m: int, n: nat)
    ensures
        match next_minute(sets, m, n) {
            Some(k) => m <= k < m + n && fires(sets, k) && forall|j: int|
                m <= j < k ==> !#[trigger] fires(sets, j),
            None => forall|j: int| m <= j < m + n ==> !#[trigger] fires(sets, j),
        },
    decreases n,
{
    if n > 0 && !fires(sets, m) {
        the_first_minute_is_found(sets, m + 1, (n - 1) as nat);
    }
}

/// The pause before a schedule fires ends at the first full minute after now that it
/// names, at most 366 days ahead.
pub proof fn a_schedule_fires_at_its_next_minute(expression: Seq<char>, secs: int, nanos: int)
    requires
        secs >= 0,
        0 <= nanos < 1_000_000_000,
    ensures
        ({
            let sets = schedule_sets(expression);
            let now = secs * 1_000_000_000 + nanos;
            match fire_delay(expression, secs, nanos) {
                Some(d) => sets is Some && d > 0 && exists|k: int|
                    now + d == k * 60_000_000_000 && #[trigger] fires(sets->0, k) && k <= secs / 60
                        + 527040 && forall|j: int|
                        secs / 60 < j < k ==> !#[trigger] fires(sets->0, j),
                None => sets is Some ==> forall|j: int|
                    secs / 60 < j <= secs / 60 + 527040 ==> !#[trigger] fires(sets->0, j),
            }
        }),
{
    if let Some(sets) = schedule_sets(expression) {
        the_first_minute_is_found(sets, secs / 60 + 1, 527040);
        if let Some(m) = next_minute(sets, secs / 60 + 1, 527040) {
            let d = (m * 60 - secs) * 1_000_000_000 - nanos;
            assert(secs * 1_000_000_000 + nanos + d == m * 60_000_000_000);
            assert(fires(sets, m));
        }
    }
}

/// A part that is no number, no range of two numbers and no step is an error.
pub proof fn anything_else_is_an_error(part: Seq<char>, min: u32, max: u32)
    ensures
        ({
            let top = u32::MAX as nat;
            let stepped = starts_with(part, "*/"@);
            let ends = split_on(part, '-');
            &&& !stepped && !part.contains('-') ==> (part_values(part, min, max) is Some <==> {
                let v = read_uint(part, top);
                v is Some && min <= v->0 <= max
            })
            &&& !stepped && part.contains('-') ==> (part_values(part, min, max) is Some <==> {
                let a = read_uint(ends[0], top);
                let b = read_uint(ends[1], top);
                a is Some && b is Some && min <= a->0 <= b->0 <= max
            })
            &&& stepped ==> (part_values(part, min, max) is Some <==> {
                let n = read_uint(part.skip(2), top);
                n is Some && n->0 > 0
            })
        }),
{
    reveal_strlit("*/");
}

/// A star among the parts names every number, whatever follows it, once the parts before
/// it are in order.
pub proof fn a_star_among_the_parts_names_every_number(
    parts: Seq<Seq<char>>,
    found: Seq<u32>,
    min: u32,
    max: u32,
    k: int,
)
    requires
        0 <= k < parts.len(),
        parts[k] == "*"@,
        forall|i: int| 0 <= i < k ==> part_values(#[trigger] parts[i], min, max) is Some,
    ensures
        parts_values(parts, found, min, max) == Some(span(min as int, max as int)),
    decreases k,
{
    if k > 0 && parts[0] != "*"@ {
        let rest = parts.drop_first();
        assert(rest[k - 1] == parts[k]);
        assert forall|i: int| 0 <= i < k - 1 implies part_values(
            #[trigger] rest[i],
            min,
            max,
        ) is Some by {
            assert(rest[i] == parts[i + 1]);
        }
        assert(part_values(parts[0], min, max) is Some);
        a_star_among_the_parts_names_every_number(
            rest,
            found + part_values(parts[0], min, max)->0,
            min,
            max,
            k - 1,
        );
    }
}

} // verus!
