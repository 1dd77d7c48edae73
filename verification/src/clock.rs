//! Time stamps: seconds since the epoch as a date and a time of day.

use vstd::prelude::*;

use crate::text::{chars_of, decimal, decimal_of};

verus! {

// ──────────────────────────────── calendar ────────────────────────────

/// True for a leap year of the Gregorian calendar.
pub open spec fn is_leap(y: int) -> bool {
    y % 4 == 0 && (y % 100 != 0 || y % 400 == 0)
}

/// The days of a month.
pub open spec fn month_len(y: int, m: int) -> int {
    if m == 2 {
        if is_leap(y) {
            29
        } else {
            28
        }
    } else if m == 4 || m == 6 || m == 9 || m == 11 {
        30
    } else {
        31
    }
}

/// The days of a year before a month.
pub open spec fn days_before_month(y: int, m: int) -> int
    decreases m,
{
    if m <= 1 {
        0
    } else {
        days_before_month(y, m - 1) + month_len(y, m - 1)
    }
}

/// The days from the first of January of the year one to that of year `y`.
pub open spec fn days_before_year(y: int) -> int {
    365 * (y - 1) + (y - 1) / 4 - (y - 1) / 100 + (y - 1) / 400
}

/// True for a date of the calendar.
pub open spec fn is_date(y: int, m: int, d: int) -> bool {
    1 <= m <= 12 && 1 <= d <= month_len(y, m)
}

/// The days from the first of January 1970 to a date.
pub open spec fn day_number(y: int, m: int, d: int) -> int {
    days_before_year(y) + days_before_month(y, m) + (d - 1) - days_before_year(1970)
}

proof fn months(y: int)
    ensures
        days_before_month(y, 1) == 0,
        days_before_month(y, 2) == 31,
        days_before_month(y, 3) == 31 + month_len(y, 2),
        days_before_month(y, 4) == 62 + month_len(y, 2),
        days_before_month(y, 5) == 92 + month_len(y, 2),
        days_before_month(y, 6) == 123 + month_len(y, 2),
        days_before_month(y, 7) == 153 + month_len(y, 2),
        days_before_month(y, 8) == 184 + month_len(y, 2),
        days_before_month(y, 9) == 215 + month_len(y, 2),
        days_before_month(y, 10) == 245 + month_len(y, 2),
        days_before_month(y, 11) == 276 + month_len(y, 2),
        days_before_month(y, 12) == 306 + month_len(y, 2),
        days_before_month(y, 13) == 337 + month_len(y, 2),
{
    reveal_with_fuel(days_before_month, 14);
}

/// Years are counted from March here, so that a leap day ends one: the days
/// from March of the year zero to March of year `y`.
spec fn days_before_march(y: int) -> int {
    365 * y + y / 4 - y / 100 + y / 400
}

proof fn fours(y: int)
    ensures
        y / 4 - (y - 1) / 4 == if y % 4 == 0 {
            1int
        } else {
            0
        },
{
}

proof fn hundreds(y: int)
    ensures
        y / 100 - (y - 1) / 100 == if y % 100 == 0 {
            1int
        } else {
            0
        },
        y % 100 == 0 ==> y % 4 == 0,
{
}

proof fn four_hundreds(y: int)
    ensures
        y / 400 - (y - 1) / 400 == if y % 400 == 0 {
            1int
        } else {
            0
        },
        y % 400 == 0 ==> y % 100 == 0,
{
}

/// A year has one more day when it is a leap year.
proof fn leap_day(y: int)
    ensures
        (y / 4 - (y - 1) / 4) - (y / 100 - (y - 1) / 100) + (y / 400 - (y - 1) / 400)
            == if is_leap(y) {
            1int
        } else {
            0
        },
{
    fours(y);
    hundreds(y);
    four_hundreds(y);
}

proof fn march_of_year(y: int)
    ensures
        days_before_year(y) + 31 + month_len(y, 2) == days_before_march(y) - 306,
        days_before_year(y + 1) == days_before_march(y),
{
    leap_day(y);
}

/// The year of an era of 400 that holds day `doe`, and the day of that year.
fn year_of_era(doe: i64) -> (r: (i64, i64))
    requires
        0 <= doe < 146097,
    ensures
        0 <= r.0 < 400,
        0 <= r.1 <= 365,
        doe == 365 * r.0 + r.0 / 4 - r.0 / 100 + r.1,
        r.1 == 365 ==> is_leap(r.0 + 1),
{
    let c: i64 = if doe / 36524 < 3 {
        doe / 36524
    } else {
        3
    };
    let doc: i64 = doe - c * 36524;
    assert(0 <= doc <= 36524 && (c < 3 ==> doc < 36524));
    let q: i64 = doc / 1461;
    let doq: i64 = doc - q * 1461;
    assert(0 <= q <= 24 && 0 <= doq <= 1460);
    assert(c < 3 && q == 24 ==> doq < 1460);
    let yq: i64 = if doq / 365 < 3 {
        doq / 365
    } else {
        3
    };
    let doy: i64 = doq - yq * 365;
    let yoe: i64 = 100 * c + 4 * q + yq;
    assert(yoe / 4 == 25 * c + q);
    assert(yoe / 100 == c);
    proof {
        if doy == 365 {
            assert(yq == 3 && doq == 1460);
            assert((yoe + 1) % 4 == 0) by {
                assert(yoe + 1 == 4 * (25 * c + q + 1));
            }
            if (yoe + 1) % 100 == 0 {
                assert(yoe + 1 == 100 * c + 4 * (q + 1));
                assert((4 * (q + 1)) % 100 == 0);
                assert(q == 24);
                assert(c == 3);
                assert(yoe + 1 == 400);
            }
        }
    }
    (yoe, doy)
}

/// The days of a year that starts in March before its month `mp`.
spec fn days_before_mp(mp: int) -> int {
    if mp == 0 {
        0
    } else if mp == 1 {
        31
    } else if mp == 2 {
        61
    } else if mp == 3 {
        92
    } else if mp == 4 {
        122
    } else if mp == 5 {
        153
    } else if mp == 6 {
        184
    } else if mp == 7 {
        214
    } else if mp == 8 {
        245
    } else if mp == 9 {
        275
    } else if mp == 10 {
        306
    } else {
        337
    }
}

/// The days of month `mp` of such a year, in a leap year.
spec fn mp_len(mp: int) -> int {
    if mp == 11 {
        29
    } else if mp == 1 || mp == 3 || mp == 6 || mp == 8 {
        30
    } else {
        31
    }
}

/// The month and the day of the day `doy` of a year that starts in March.
fn month_of_day(doy: i64) -> (r: (i64, i64))
    requires
        0 <= doy <= 365,
    ensures
        0 <= r.0 <= 11,
        1 <= r.1 <= mp_len(r.0 as int),
        doy == days_before_mp(r.0 as int) + r.1 - 1,
{
    let mp: i64 = (5 * doy + 2) / 153;
    let before: i64 = (153 * mp + 2) / 5;
    assert(0 <= mp <= 11);
    assert(before == days_before_mp(mp as int));
    (mp, doy - before + 1)
}

/// A year of an era and the year itself are leap years together, and the days
/// before them differ by those of the eras.
proof fn year_in_era(era: int, yoe: int)
    requires
        0 <= yoe < 400,
    ensures
        days_before_march(era * 400 + yoe) == era * 146097 + 365 * yoe + yoe / 4 - yoe / 100,
        is_leap(era * 400 + yoe + 1) == is_leap(yoe + 1),
{
    let y = era * 400 + yoe;
    assert(y / 4 == 100 * era + yoe / 4);
    assert(y / 100 == 4 * era + yoe / 100);
    assert(y / 400 == era);
    assert((y + 1) % 4 == (yoe + 1) % 4);
    assert((y + 1) % 100 == (yoe + 1) % 100);
    assert((y + 1) % 400 == (yoe + 1) % 400);
}

/// The date of day `day` of month `mp` of a year that starts in March.
proof fn date_in_year(march: int, mp: int, day: int)
    requires
        0 <= mp <= 11,
        1 <= day <= mp_len(mp),
        mp == 11 && day == 29 ==> is_leap(march + 1),
    ensures
        mp < 10 ==> {
            &&& is_date(march, mp + 3, day)
            &&& day_number(march, mp + 3, day) == days_before_march(march) + days_before_mp(mp)
                + day - 1 - 719468
        },
        mp >= 10 ==> {
            &&& is_date(march + 1, mp - 9, day)
            &&& day_number(march + 1, mp - 9, day) == days_before_march(march)
                + days_before_mp(mp) + day - 1 - 719468
        },
{
    assert(days_before_year(1970) == 719162);
    march_of_year(march);
    if mp < 10 {
        months(march);
    } else {
        months(march + 1);
    }
}

/// The date that lies `z` days after the first of January 1970: year, month
/// and day.
pub fn civil_from_days(z: i64) -> (r: (i64, u32, u32))
    requires
        z <= i64::MAX - 719468,
    ensures
        is_date(r.0 as int, r.1 as int, r.2 as int),
        day_number(r.0 as int, r.1 as int, r.2 as int) == z,
{
    let n: i64 = z + 719468;
    let era: i64 = if n >= 0 {
        n / 146097
    } else {
        -1 - (-1 - n) / 146097
    };
    assert(era * 146097 <= n < era * 146097 + 146097);
    let doe: i64 = n - era * 146097;
    let (yoe, doy) = year_of_era(doe);
    let (mp, day) = month_of_day(doy);
    let march: i64 = era * 400 + yoe;
    proof {
        year_in_era(era as int, yoe as int);
        date_in_year(march as int, mp as int, day as int);
    }
    if mp < 10 {
        (march, (mp + 3) as u32, day as u32)
    } else {
        (march + 1, (mp - 9) as u32, day as u32)
    }
}

proof fn year_follows(y: int)
    ensures
        days_before_year(y + 1) == days_before_year(y) + 337 + month_len(y, 2),
{
    march_of_year(y);
}

proof fn later_year(a: int, b: int)
    requires
        a <= b,
    ensures
        days_before_year(a) <= days_before_year(b),
    decreases b - a,
{
    if a < b {
        later_year(a, b - 1);
        year_follows(b - 1);
    }
}

proof fn later_month(y: int, a: int, b: int)
    requires
        1 <= a < b <= 13,
    ensures
        days_before_month(y, a) + month_len(y, a) <= days_before_month(y, b),
    decreases b - a,
{
    if a + 1 < b {
        later_month(y, a, b - 1);
    }
}

proof fn later_date(y1: int, m1: int, d1: int, y2: int, m2: int, d2: int)
    requires
        is_date(y1, m1, d1),
        is_date(y2, m2, d2),
        y1 < y2 || (y1 == y2 && (m1 < m2 || (m1 == m2 && d1 < d2))),
    ensures
        day_number(y1, m1, d1) < day_number(y2, m2, d2),
{
    if y1 < y2 {
        later_month(y1, m1, 13);
        months(y1);
        year_follows(y1);
        later_year(y1 + 1, y2);
        if m2 > 1 {
            later_month(y2, 1, m2);
        }
        months(y2);
    } else if m1 < m2 {
        later_month(y1, m1, m2);
    }
}

/// Each day has one date: two dates with the same day number are the same.
pub proof fn dates_are_unique(y1: int, m1: int, d1: int, y2: int, m2: int, d2: int)
    requires
        is_date(y1, m1, d1),
        is_date(y2, m2, d2),
        day_number(y1, m1, d1) == day_number(y2, m2, d2),
    ensures
        y1 == y2 && m1 == m2 && d1 == d2,
{
    if y1 < y2 || (y1 == y2 && (m1 < m2 || (m1 == m2 && d1 < d2))) {
        later_date(y1, m1, d1, y2, m2, d2);
    } else if y2 < y1 || (y1 == y2 && (m2 < m1 || (m1 == m2 && d2 < d1))) {
        later_date(y2, m2, d2, y1, m1, d1);
    }
}

// ─────────────────────────────── time stamps ──────────────────────────

/// The date that lies `z` days after the first of January 1970.
pub open spec fn date_at(z: int) -> (int, int, int) {
    choose|t: (int, int, int)| is_date(t.0, t.1, t.2) && #[trigger] day_number(t.0, t.1, t.2) == z
}

/// A numeral with zeros in front of it up to a width.
pub open spec fn padded(s: Seq<char>, width: nat) -> Seq<char> {
    if s.len() >= width {
        s
    } else {
        Seq::new((width - s.len()) as nat, |i: int| '0') + s
    }
}

/// A time stamp: the date, `T`, the time of day, `Z`.
pub open spec fn stamp(secs: nat) -> Seq<char> {
    let t = date_at((secs / 86400) as int);
    let rem = secs % 86400;
    padded(decimal(t.0 as nat), 4) + "-"@ + padded(decimal(t.1 as nat), 2) + "-"@ + padded(
        decimal(t.2 as nat),
        2,
    ) + "T"@ + padded(decimal(rem / 3600), 2) + ":"@ + padded(decimal((rem % 3600) / 60), 2) + ":"@
        + padded(decimal(rem % 60), 2) + "Z"@
}

fn pad(n: u64, width: usize) -> (r: String)
    ensures
        r@ == padded(decimal(n as nat), width as nat),
{
    let digits = decimal_of(n as u128);
    let v = chars_of(digits.as_str());
    let mut out = String::new();
    if v.len() < width {
        let missing: usize = width - v.len();
        let mut i: usize = 0;
        while i < missing
            invariant
                i <= missing,
                out@ == Seq::new(i as nat, |k: int| '0'),
            decreases missing - i,
        {
            out.push('0');
            i = i + 1;
            assert(out@ =~= Seq::new(i as nat, |k: int| '0'));
        }
    }
    out.append(digits.as_str());
    assert(out@ =~= padded(decimal(n as nat), width as nat));
    out
}

/// The time stamp of a number of seconds since the epoch.
pub fn timestamp(secs: u64) -> (r: String)
    ensures
        r@ == stamp(secs as nat),
{
    let days: u64 = secs / 86400;
    let rem: u64 = secs % 86400;
    let (y, m, d) = civil_from_days(days as i64);
    proof {
        let t = date_at(days as int);
        assert(is_date(y as int, m as int, d as int) && day_number(
            (y as int, m as int, d as int).0,
            (y as int, m as int, d as int).1,
            (y as int, m as int, d as int).2,
        ) == days);
        dates_are_unique(t.0, t.1, t.2, y as int, m as int, d as int);
        if y < 1970 {
            assert(is_date(1970, 1, 1));
            later_date(y as int, m as int, d as int, 1970, 1, 1);
        }
    }
    let mut s = pad(y as u64, 4);
    s.append("-");
    s.append(pad(m as u64, 2).as_str());
    s.append("-");
    s.append(pad(d as u64, 2).as_str());
    s.append("T");
    s.append(pad(rem / 3600, 2).as_str());
    s.append(":");
    s.append(pad((rem % 3600) / 60, 2).as_str());
    s.append(":");
    s.append(pad(rem % 60, 2).as_str());
    s.append("Z");
    s
}

} // verus!
