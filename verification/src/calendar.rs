//! The proleptic Gregorian calendar.
use vstd::prelude::*;

verus! {

pub open spec fn is_leap(y: int) -> bool {
    y % 4 == 0 && (y % 100 != 0 || y % 400 == 0)
}

/// The number of days of a month.
pub open spec fn month_len(y: int, m: int) -> int {
    if m == 2 {
        if is_leap(y) {
            29
        } else {
            28
        }
    } else if m == 4 || m == 6 || m == 9 || m == 11 {
        30
    } else {
        31
    }
}

pub open spec fn is_date(y: int, m: int, d: int) -> bool {
    1 <= m <= 12 && 1 <= d <= month_len(y, m)
}

/// Days from the first of January of year 1 to the first of January of year `y`.
pub open spec fn days_before_year(y: int) -> int {
    365 * (y - 1) + (y - 1) / 4 - (y - 1) / 100 + (y - 1) / 400
}

/// Days from the first of January to the first of month `m`.
pub open spec fn days_before_month(y: int, m: int) -> int {
    let common = if m == 1 {
        0int
    } else if m == 2 {
        31
    } else if m == 3 {
        59
    } else if m == 4 {
        90
    } else if m == 5 {
        120
    } else if m == 6 {
        151
    } else if m == 7 {
        181
    } else if m == 8 {
        212
    } else if m == 9 {
        243
    } else if m == 10 {
        273
    } else if m == 11 {
        304
    } else {
        334
    };
    if m > 2 && is_leap(y) {
        common + 1
    } else {
        common
    }
}

/// Days from the first of January 1970 to a date.
pub open spec fn day_number(y: int, m: int, d: int) -> int {
    days_before_year(y) + days_before_month(y, m) + (d - 1) - 719162
}

proof fn lemma_years(a: int, b: int)
    requires
        a < b,
    ensures
        days_before_year(a) + 365 + (if is_leap(a) {
            1int
        } else {
            0int
        }) <= days_before_year(b),
    decreases b - a,
{
    if a + 1 < b {
        lemma_years(a, b - 1);
        lemma_years(b - 1, b);
    }
}

/// A day number belongs to one date only.
pub proof fn a_day_has_one_date(y1: int, m1: int, d1: int, y2: int, m2: int, d2: int)
    requires
        is_date(y1, m1, d1),
        is_date(y2, m2, d2),
        day_number(y1, m1, d1) == day_number(y2, m2, d2),
    ensures
        y1 == y2,
        m1 == m2,
        d1 == d2,
{
    if y1 < y2 {
        lemma_years(y1, y2);
    }
    if y2 < y1 {
        lemma_years(y2, y1);
    }
}

/// Days from the first of March of year 0 to the first of March of year `y`.
spec fn march_days(y: int) -> int {
    365 * y + y / 4 - y / 100 + y / 400
}

/// The year of a day within a cycle of 400 years that begins in March.
spec fn cycle_year(doe: int) -> int {
    (doe - doe / 1460 + doe / 36524 - doe / 146096) / 365
}

/// A day of the cycle in terms of its century, its group of four years, its
/// year in the group, and its day in the year.
proof fn lemma_cycle_parts(h: int, q: int, t: int, u: int)
    requires
        0 <= h <= 3,
        0 <= q <= 24,
        0 <= t <= 3,
        0 <= u <= 365,
        u == 365 ==> t == 3 && (q < 24 || h == 3),
    ensures
        ({
            let doe = 36524 * h + 1461 * q + 365 * t + u;
            let y = 100 * h + 4 * q + t;
            &&& cycle_year(doe) == y
            &&& march_days(y) == doe - u
            &&& march_days(y + 1) == doe - u + 365 + (if t == 3 && (q < 24 || h == 3) {
                1int
            } else {
                0int
            })
        }),
{
    let doe = 36524 * h + 1461 * q + 365 * t + u;
    let y = 100 * h + 4 * q + t;
    let w = 24 * h + q + 365 * t + u;
    assert(doe == 1460 * (25 * h + q) + w);
    assert(0 <= w < 2920);
    let e = if w >= 1460 {
        1int
    } else {
        0int
    };
    assert(doe / 1460 == 25 * h + q + e);
    assert(0 <= doe <= 146096);
    let r = doe - 36524 * h;
    assert(0 <= r <= 36524);
    assert(r == 36524 ==> h == 3);
    assert(doe / 36524 - doe / 146096 == h);
    assert(doe - doe / 1460 + doe / 36524 - doe / 146096 == 365 * y + u - e);
    assert(0 <= u - e <= 364);
    assert(cycle_year(doe) == y);
    assert(y / 4 == 25 * h + q);
    assert(y / 100 == h);
    assert(y / 400 == 0);
    if t == 3 {
        assert((y + 1) / 4 == 25 * h + q + 1);
        if q == 24 {
            assert((y + 1) / 100 == h + 1);
            if h == 3 {
                assert((y + 1) / 400 == 1);
            } else {
                assert((y + 1) / 400 == 0);
            }
        } else {
            assert((y + 1) / 100 == h);
            assert((y + 1) / 400 == 0);
        }
    } else {
        assert((y + 1) / 4 == 25 * h + q);
        assert((y + 1) / 100 == h);
        assert((y + 1) / 400 == 0);
    }
}

proof fn lemma_cycle_year(doe: int)
    requires
        0 <= doe < 146097,
    ensures
        0 <= cycle_year(doe) < 400,
        march_days(cycle_year(doe)) <= doe < march_days(cycle_year(doe) + 1),
{
    let h = if doe / 36524 > 3 {
        3
    } else {
        doe / 36524
    };
    let r = doe - 36524 * h;
    assert(0 <= r <= 36524 && (r == 36524 ==> h == 3));
    let q = if r / 1461 > 24 {
        24
    } else {
        r / 1461
    };
    let s = r - 1461 * q;
    assert(0 <= s <= 1460);
    assert(q == 24 && h < 3 ==> s <= 1459);
    let t = if s / 365 > 3 {
        3
    } else {
        s / 365
    };
    let u = s - 365 * t;
    assert(0 <= u <= 365);
    lemma_cycle_parts(h, q, t, u);
}

proof fn lemma_march_year(z: int)
    requires
        0 <= z,
    ensures
        ({
            let era = z / 146097;
            let doe = z % 146097;
            let y = cycle_year(doe) + era * 400;
            &&& march_days(y) == era * 146097 + march_days(cycle_year(doe))
            &&& march_days(y + 1) == era * 146097 + march_days(cycle_year(doe) + 1)
            &&& march_days(y) <= z < march_days(y + 1)
        }),
{
    let era = z / 146097;
    let doe = z % 146097;
    let k = cycle_year(doe);
    lemma_cycle_year(doe);
    let y = k + era * 400;
    assert(y / 4 == k / 4 + era * 100);
    assert(y / 100 == k / 100 + era * 4);
    assert(y / 400 == k / 400 + era);
    assert((y + 1) / 4 == (k + 1) / 4 + era * 100);
    assert((y + 1) / 100 == (k + 1) / 100 + era * 4);
    assert((y + 1) / 400 == (k + 1) / 400 + era);
}

proof fn lemma_step4(y: int)
    ensures
        (y - 1) / 4 == y / 4 - (if y % 4 == 0 {
            1int
        } else {
            0int
        }),
{
}

proof fn lemma_step100(y: int)
    ensures
        (y - 1) / 100 == y / 100 - (if y % 100 == 0 {
            1int
        } else {
            0int
        }),
{
}

proof fn lemma_step400(y: int)
    ensures
        (y - 1) / 400 == y / 400 - (if y % 400 == 0 {
            1int
        } else {
            0int
        }),
{
}

/// A year of a whole century is a multiple of four, one of a whole cycle is
/// one of a whole century.
proof fn lemma_multiples(y: int)
    ensures
        y % 100 == 0 ==> y % 4 == 0,
        y % 400 == 0 ==> y % 100 == 0,
{
    if y % 100 == 0 {
        assert(y == 4 * (25 * (y / 100)));
    }
    if y % 400 == 0 {
        assert(y == 100 * (4 * (y / 400)));
    }
}

/// From the first of March on, a year's days are counted alike in every year.
proof fn lemma_march_to_january(y: int)
    ensures
        days_before_year(y) + 59 + (if is_leap(y) {
            1int
        } else {
            0int
        }) == march_days(y) - 306,
        days_before_year(y + 1) == march_days(y),
        march_days(y + 1) - march_days(y) == 365 + (if is_leap(y + 1) {
            1int
        } else {
            0int
        }),
{
    lemma_step4(y);
    lemma_step100(y);
    lemma_step400(y);
    lemma_multiples(y);
    lemma_step4(y + 1);
    lemma_step100(y + 1);
    lemma_step400(y + 1);
    lemma_multiples(y + 1);
}

/// The month and the day of a day in a year that begins in March.
proof fn lemma_months(doy: int)
    requires
        0 <= doy <= 365,
    ensures
        ({
            let mp = (5 * doy + 2) / 153;
            let before = (153 * mp + 2) / 5;
            let d = doy - before + 1;
            &&& 0 <= mp <= 11
            &&& 1 <= d <= 31
            &&& (mp == 1 || mp == 3 || mp == 6 || mp == 8) ==> d <= 30
            &&& mp == 11 ==> d <= 29 && before == 337
            &&& mp == 11 && d == 29 ==> doy == 365
            &&& before == (if mp == 0 {
                0int
            } else if mp == 1 {
                31
            } else if mp == 2 {
                61
            } else if mp == 3 {
                92
            } else if mp == 4 {
                122
            } else if mp == 5 {
                153
            } else if mp == 6 {
                184
            } else if mp == 7 {
                214
            } else if mp == 8 {
                245
            } else if mp == 9 {
                275
            } else if mp == 10 {
                306
            } else {
                337
            })
        }),
{
    let mp = (5 * doy + 2) / 153;
    assert(153 * mp <= 5 * doy + 2 < 153 * (mp + 1));
}

/// The date of a day, counted from the first of January 1970.
pub fn civil_from_days(days: u64) -> (r: (u64, u64, u64))
    requires
        days <= 1000000000000000,
    ensures
        is_date(r.0 as int, r.1 as int, r.2 as int),
        day_number(r.0 as int, r.1 as int, r.2 as int) == days,
{
    let z: u64 = days + 719468;
    let era: u64 = z / 146097;
    let doe: u64 = z % 146097;
    let yoe: u64 = (doe - doe / 1460 + doe / 36524 - doe / 146096) / 365;
    proof {
        lemma_cycle_year(doe as int);
        lemma_march_year(z as int);
        assert(yoe == cycle_year(doe as int));
    }
    let y: u64 = yoe + era * 400;
    let doy: u64 = doe - (365 * yoe + yoe / 4 - yoe / 100);
    proof {
        lemma_march_to_january(y as int);
        assert(march_days(yoe as int) == 365 * yoe + yoe / 4 - yoe / 100);
        assert(doy == z - march_days(y as int));
        assert(doy <= 365);
    }
    let mp: u64 = (5 * doy + 2) / 153;
    proof {
        lemma_months(doy as int);
    }
    let d: u64 = doy - (153 * mp + 2) / 5 + 1;
    let mo: u64 = if mp < 10 {
        mp + 3
    } else {
        mp - 9
    };
    let year: u64 = if mo <= 2 {
        y + 1
    } else {
        y
    };
    proof {
        assert(is_date(year as int, mo as int, d as int));
        assert(day_number(year as int, mo as int, d as int) == days);
    }
    (year, mo, d)
}

/// Days are counted from the first of January 1970, and every day has the number after
/// that of the day before it, within a month, at the end of a month and at the end of a
/// year. February has its extra day in every fourth year but in three of four centuries.
pub proof fn days_follow_each_other(y: int, m: int, d: int)
    requires
        is_date(y, m, d),
    ensures
        day_number(1970, 1, 1) == 0,
        is_date(y, m, d + 1) ==> day_number(y, m, d + 1) == day_number(y, m, d) + 1,
        !is_date(y, m, d + 1) && m < 12 ==> day_number(y, m + 1, 1) == day_number(y, m, d) + 1,
        !is_date(y, m, d + 1) && m == 12 ==> day_number(y + 1, 1, 1) == day_number(y, m, d) + 1,
        is_date(y, 2, 29) <==> y % 400 == 0 || (y % 4 == 0 && y % 100 != 0),
        is_date(y, 2, 28) && !is_date(y, 2, 30),
        is_date(y, m, 30) <==> m != 2,
        is_date(y, m, 31) <==> m == 1 || m == 3 || m == 5 || m == 7 || m == 8 || m == 10 || m == 12,
        !is_date(y, m, 32),
{
    lemma_step4(y);
    lemma_step100(y);
    lemma_step400(y);
    lemma_multiples(y);
}

} // verus!
