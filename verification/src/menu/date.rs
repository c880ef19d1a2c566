//! Calendar dates of unix timestamps, for the match history.

use vstd::prelude::*;
use vstd::string::*;

use crate::text::{cat, decimal, show_padded, zero_padded};

verus! {

/// Whether a year of the Gregorian calendar (the year 0 being 1 BC) has a 29th of February.
pub open spec fn leap(y: int) -> bool {
    y % 4 == 0 && (y % 100 != 0 || y % 400 == 0)
}

pub open spec fn days_in_month(y: int, m: int) -> int {
    if m == 2 {
        if leap(y) {
            29
        } else {
            28
        }
    } else if m == 4 || m == 6 || m == 9 || m == 11 {
        30
    } else {
        31
    }
}

/// Whether a day stands in the calendar.
pub open spec fn calendar_day(y: int, m: int, d: int) -> bool {
    1 <= m <= 12 && 1 <= d <= days_in_month(y, m)
}

/// The day after.
pub open spec fn next_day(y: int, m: int, d: int) -> (int, int, int) {
    if d < days_in_month(y, m) {
        (y, m, d + 1)
    } else if m < 12 {
        (y, m + 1, 1)
    } else {
        (y + 1, 1, 1)
    }
}

/// Days of a year before the first of a month.
pub open spec fn days_before_month(y: int, m: int) -> int {
    let shift: int = if leap(y) && m > 2 {
        1
    } else {
        0
    };
    shift + if m <= 1 {
        0int
    } else if m == 2 {
        31
    } else if m == 3 {
        59
    } else if m == 4 {
        90
    } else if m == 5 {
        120
    } else if m == 6 {
        151
    } else if m == 7 {
        181
    } else if m == 8 {
        212
    } else if m == 9 {
        243
    } else if m == 10 {
        273
    } else if m == 11 {
        304
    } else {
        334
    }
}

/// Days from the first of January 1970 to a day of the calendar.
pub open spec fn day_number(y: int, m: int, d: int) -> int {
    let p = y - 1;
    365 * p + p / 4 - p / 100 + p / 400 + days_before_month(y, m) + d - 1 - 719_162
}

/// `YYYY-MM-DD`.
pub open spec fn date_text(y: int, m: int, d: int) -> Seq<char> {
    (if y < 0 {
        "-"@ + zero_padded(decimal((-y) as nat), 3)
    } else {
        zero_padded(decimal(y as nat), 4)
    }) + "-"@ + zero_padded(decimal(m as nat), 2) + "-"@ + zero_padded(decimal(d as nat), 2)
}

/// The days are numbered from the first of January 1970, one after the other.
pub proof fn law_days_are_numbered_in_order(y: int, m: int, d: int)
    requires
        calendar_day(y, m, d),
    ensures
        day_number(1970, 1, 1) == 0,
        ({
            let n = next_day(y, m, d);
            calendar_day(n.0, n.1, n.2) && day_number(n.0, n.1, n.2) == day_number(y, m, d) + 1
        }),
{
    if m == 12 && d == 31 {
        lemma_year_length(y);
    }
}

/// How the number of multiples of 4, 100 and 400 grows from a year to the next.
proof fn lemma_quotients(y: int)
    ensures
        y / 4 - (y - 1) / 4 == if y % 4 == 0 {
            1int
        } else {
            0
        },
        y / 100 - (y - 1) / 100 == if y % 100 == 0 {
            1int
        } else {
            0
        },
        y / 400 - (y - 1) / 400 == if y % 400 == 0 {
            1int
        } else {
            0
        },
        y % 400 == 0 ==> y % 100 == 0,
        y % 100 == 0 ==> y % 4 == 0,
{
}

/// A year's days, from its number of leap days.
proof fn lemma_year_length(y: int)
    ensures
        day_number(y + 1, 1, 1) - day_number(y, 1, 1) == if leap(y) {
            366int
        } else {
            365
        },
{
    lemma_quotients(y);
    assert(day_number(y + 1, 1, 1) == 365 * y + y / 4 - y / 100 + y / 400 - 719_162);
}

/// Later days have greater numbers, so a number belongs to one day.
pub proof fn law_day_numbers_are_unique(a: (int, int, int), b: (int, int, int))
    requires
        calendar_day(a.0, a.1, a.2),
        calendar_day(b.0, b.1, b.2),
        day_number(a.0, a.1, a.2) == day_number(b.0, b.1, b.2),
    ensures
        a == b,
{
    lemma_within_year(a.0, a.1, a.2);
    lemma_within_year(b.0, b.1, b.2);
    if a.0 < b.0 {
        lemma_years_follow(a.0, b.0);
    } else if b.0 < a.0 {
        lemma_years_follow(b.0, a.0);
    } else {
        assert(days_before_month(a.0, a.1) + a.2 == days_before_month(b.0, b.1) + b.2);
    }
}

proof fn lemma_within_year(y: int, m: int, d: int)
    requires
        calendar_day(y, m, d),
    ensures
        day_number(y, 1, 1) <= day_number(y, m, d) < day_number(y + 1, 1, 1),
{
    lemma_year_length(y);
}

proof fn lemma_years_follow(a: int, b: int)
    requires
        a < b,
    ensures
        day_number(a + 1, 1, 1) <= day_number(b, 1, 1),
    decreases b - a,
{
    if a + 1 < b {
        lemma_years_follow(a, b - 1);
        lemma_year_length(b - 1);
    }
}

/// The quotient rounded down, which truncating division is not below zero.
fn floor_div(n: i64, d: i64) -> (r: i64)
    requires
        d > 1,
    ensures
        r == n as int / d as int,
{
    if n >= 0 {
        n / d
    } else {
        let m: i64 = -(n + 1);
        let q: i64 = m / d;
        proof {
            assert(q <= m) by (nonlinear_arith)
                requires
                    q == m as int / d as int,
                    m >= 0,
                    d > 1,
            ;
            assert((-q - 1) == n as int / d as int) by (nonlinear_arith)
                requires
                    m == -(n + 1),
                    q == m as int / d as int,
                    d > 1,
                    m >= 0,
            ;
        }
        -q - 1
    }
}

/// The year (from March) within four centuries, by the day within them.
proof fn lemma_year_of_era(doe: int) -> (r: (int, int))
    requires
        0 <= doe <= 146_096,
    ensures
        r.0 == (doe - doe / 1460 + doe / 36_524 - doe / 146_096) / 365,
        r.1 == doe - (365 * r.0 + r.0 / 4 - r.0 / 100),
        0 <= r.0 <= 399,
        0 <= r.1 <= 365,
        r.1 == 365 ==> leap(r.0 + 1),
{
    let yoe = (doe - doe / 1460 + doe / 36_524 - doe / 146_096) / 365;
    let doy = doe - (365 * yoe + yoe / 4 - yoe / 100);
    if doe < 146_096 {
        let c = doe / 36_524;
        let r = doe - 36_524 * c;
        let a = r / 1461;
        let b = r - 1461 * a;
        let j: int = if b / 365 > 3 {
            3
        } else {
            b / 365
        };
        assert(0 <= c <= 3);
        assert(0 <= r < 36_524);
        assert(0 <= a <= 24);
        assert(0 <= b <= 1460);
        let u = (24 * c + a + b) / 1460;
        assert(doe / 1460 == 25 * c + a + u) by {
            assert(doe == 1460 * (25 * c + a) + (24 * c + a + b));
        }
        assert(u == 0 || u == 1);
        assert(doe - doe / 1460 + doe / 36_524 - doe / 146_096 == 365 * (100 * c + 4 * a) + (b - u));
        assert((b - u) / 365 == j);
        assert(yoe == 100 * c + 4 * a + j);
        assert(4 * a + j <= 99);
        assert(yoe / 4 == 25 * c + a);
        assert(yoe / 100 == c);
        assert(doy == b - 365 * j);
        if doy == 365 {
            assert(b == 1460);
            assert(yoe + 1 == 100 * c + 4 * (a + 1));
            assert(a < 24);
            assert((yoe + 1) % 100 == 4 * (a + 1));
        }
    } else {
        assert(yoe == 399);
    }
    (yoe, doy)
}

/// The number of a day, counted from March.
proof fn lemma_march_years(era: int, yoe: int, m: int, d: int)
    requires
        0 <= yoe <= 399,
        1 <= m <= 12,
    ensures
        ({
            let y = 400 * era + yoe + if m <= 2 {
                1int
            } else {
                0
            };
            let from_march = if m <= 2 {
                306 + 31 * (m - 1)
            } else {
                days_before_month(1, m) - 59
            };
            day_number(y, m, d) == 146_097 * era + 365 * yoe + yoe / 4 - yoe / 100 + from_march + d
                - 1 - 719_468
        }),
{
    let big = 400 * era + yoe;
    assert(big / 4 == 100 * era + yoe / 4);
    assert(big / 100 == 4 * era + yoe / 100);
    assert(big / 400 == era);
    if m > 2 {
        lemma_quotients(big);
        assert(!leap(1));
        assert(days_before_month(big, m) == days_before_month(1, m) + if leap(big) {
            1int
        } else {
            0
        });
    }
}

/// The day and month by the day of a year that starts in March.
proof fn lemma_month_of_year(doy: int) -> (r: (int, int, int))
    requires
        0 <= doy <= 365,
    ensures
        r.0 == (5 * doy + 2) / 153,
        0 <= r.0 <= 11,
        r.1 == if r.0 < 10 {
            r.0 + 3
        } else {
            r.0 - 9
        },
        r.2 == doy - (153 * r.0 + 2) / 5 + 1,
        1 <= r.2 <= 31,
        r.1 == 4 || r.1 == 6 || r.1 == 9 || r.1 == 11 ==> r.2 <= 30,
        r.1 == 2 ==> r.2 <= 29 && (r.2 == 29 <==> doy == 365),
        doy == (if r.1 <= 2 {
            306 + 31 * (r.1 - 1)
        } else {
            days_before_month(1, r.1) - 59
        }) + r.2 - 1,
{
    let mp = (5 * doy + 2) / 153;
    let m = if mp < 10 {
        mp + 3
    } else {
        mp - 9
    };
    let d = doy - (153 * mp + 2) / 5 + 1;
    assert(0 <= mp <= 11);
    assert(!leap(1));
    assert(mp == 0 || mp == 1 || mp == 2 || mp == 3 || mp == 4 || mp == 5 || mp == 6 || mp == 7 || mp
        == 8 || mp == 9 || mp == 10 || mp == 11);
    (mp, m, d)
}

/// Four centuries on, the same years are leap years.
proof fn lemma_leap_again(era: int, y: int)
    ensures
        leap(400 * era + y) == leap(y),
{
    let big = 400 * era + y;
    assert(big % 4 == y % 4);
    assert(big % 100 == y % 100);
    assert(big % 400 == y % 400);
}

/// The day of the calendar, by the day within four centuries that start in March.
proof fn lemma_civil(era: int, doe: int, yoe: int, doy: int, mp: int, y: int, m: int, d: int)
    requires
        0 <= doe <= 146_096,
        yoe == (doe - doe / 1460 + doe / 36_524 - doe / 146_096) / 365,
        doy == doe - (365 * yoe + yoe / 4 - yoe / 100),
        mp == (5 * doy + 2) / 153,
        d == doy - (153 * mp + 2) / 5 + 1,
        m == if mp < 10 {
            mp + 3
        } else {
            mp - 9
        },
        y == yoe + era * 400 + if m <= 2 {
            1int
        } else {
            0
        },
    ensures
        calendar_day(y, m, d),
        day_number(y, m, d) == era * 146_097 + doe - 719_468,
{
    let a = lemma_year_of_era(doe);
    let b = lemma_month_of_year(doy);
    lemma_march_years(era, yoe, m, d);
    if m == 2 && d == 29 {
        lemma_leap_again(era, yoe + 1);
    }
}

/// The year, month and day that are so many days from the first of January 1970 (within the days
/// that timestamps reach).
pub fn civil(days: i64) -> (r: (i64, i64, i64))
    requires
        -1_000_000_000_000_000 <= days <= 1_000_000_000_000_000,
    ensures
        calendar_day(r.0 as int, r.1 as int, r.2 as int),
        day_number(r.0 as int, r.1 as int, r.2 as int) == days,
        -1_000_000_000_000_000 <= r.0 <= 1_000_000_000_000_000,
{
    let z: i64 = days + 719_468;
    let era: i64 = floor_div(z, 146_097);
    let doe: i64 = z - era * 146_097;
    proof {
        lemma_year_of_era(doe as int);
    }
    let yoe: i64 = (doe - doe / 1460 + doe / 36_524 - doe / 146_096) / 365;
    let doy: i64 = doe - (365 * yoe + yoe / 4 - yoe / 100);
    let mp: i64 = (5 * doy + 2) / 153;
    let d: i64 = doy - (153 * mp + 2) / 5 + 1;
    let m: i64 = if mp < 10 {
        mp + 3
    } else {
        mp - 9
    };
    let y: i64 = yoe + era * 400 + if m <= 2 {
        1
    } else {
        0
    };
    proof {
        lemma_civil(
            era as int,
            doe as int,
            yoe as int,
            doy as int,
            mp as int,
            y as int,
            m as int,
            d as int,
        );
    }
    (y, m, d)
}

/// The text of the day that a unix timestamp falls on: of the one day of the calendar that is as
/// many days from the first of January 1970 as the timestamp has whole days.
pub open spec fn date_of(ts: int) -> Seq<char> {
    let day = choose|t: (int, int, int)| #[trigger]
        calendar_day(t.0, t.1, t.2) && day_number(t.0, t.1, t.2) == ts / 86_400;
    date_text(day.0, day.1, day.2)
}

/// `YYYY-MM-DD` of a unix timestamp.
pub fn ymd(ts: i64) -> (r: String)
    ensures
        r@ == date_of(ts as int),
        exists|y: int, m: int, d: int| #[trigger]
            calendar_day(y, m, d) && day_number(y, m, d) == ts as int / 86_400 && r@ == date_text(
                y,
                m,
                d,
            ),
{
    let days: i64 = floor_div(ts, 86_400);
    let (y, m, d) = civil(days);
    proof {
        let t = (y as int, m as int, d as int);
        assert(calendar_day(t.0, t.1, t.2));
        let day = choose|t: (int, int, int)| #[trigger]
            calendar_day(t.0, t.1, t.2) && day_number(t.0, t.1, t.2) == ts as int / 86_400;
        law_day_numbers_are_unique(t, day);
    }
    let mut out = if y < 0 {
        let n = show_padded((-y) as u64, 3);
        cat("-", n.as_str())
    } else {
        show_padded(y as u64, 4)
    };
    let month = show_padded(m as u64, 2);
    let day = show_padded(d as u64, 2);
    out.append("-");
    out.append(month.as_str());
    out.append("-");
    out.append(day.as_str());
    out
}

/// A year is a leap year every fourth year, except at a century, except at every fourth century; and
/// its months make up its days.
pub proof fn law_the_lengths_of_years(y: int)
    ensures
        y % 400 == 0 ==> leap(y),
        y % 100 == 0 && y % 400 != 0 ==> !leap(y),
        y % 4 == 0 && y % 100 != 0 ==> leap(y),
        y % 4 != 0 ==> !leap(y),
        days_in_month(y, 1) + days_in_month(y, 2) + days_in_month(y, 3) + days_in_month(y, 4)
            + days_in_month(y, 5) + days_in_month(y, 6) + days_in_month(y, 7) + days_in_month(y, 8)
            + days_in_month(y, 9) + days_in_month(y, 10) + days_in_month(y, 11) + days_in_month(
            y,
            12,
        ) == if leap(y) {
            366int
        } else {
            365
        },
        days_in_month(y, 2) == 28 || days_in_month(y, 2) == 29,
        day_number(2000, 3, 1) == 11_017,
        day_number(1970, 1, 1) == 0,
{
}

/// A date is written as year, month and day, with four, two and two digits.
pub proof fn law_how_a_date_is_written(y: int, m: int, d: int)
    requires
        1000 <= y <= 9999,
        10 <= m <= 12,
        10 <= d <= 31,
    ensures
        date_text(y, m, d) == decimal(y as nat) + "-"@ + decimal(m as nat) + "-"@ + decimal(
            d as nat,
        ),
{
    reveal_with_fuel(decimal, 5);
}

} // verus!
