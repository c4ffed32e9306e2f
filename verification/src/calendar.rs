//! Proleptic Gregorian calendar arithmetic on day numbers counted from
//! 1970-01-01 (day 0).
use vstd::prelude::*;

verus! {

/// A Gregorian leap year: divisible by 4, except centuries not divisible by 400.
pub open spec fn is_leap_year(y: int) -> bool {
    (y % 4 == 0 && y % 100 != 0) || y % 400 == 0
}

/// Number of days in month `m` (1..=12) of year `y`.
pub open spec fn month_length(y: int, m: int) -> int {
    if m == 2 {
        if is_leap_year(y) { 29 } else { 28 }
    } else if m == 4 || m == 6 || m == 9 || m == 11 {
        30
    } else {
        31
    }
}

/// `(y, m, d)` names a day of the calendar.
pub open spec fn is_valid_date(y: int, m: int, d: int) -> bool {
    1 <= m <= 12 && 1 <= d <= month_length(y, m)
}

/// Running count of leap years: the number of leap years in `1..=y` when
/// `y >= 0`, and extended below zero so that consecutive values differ by one
/// exactly at leap years.
pub open spec fn leap_count(y: int) -> int {
    y / 4 - y / 100 + y / 400
}

/// Days from 1970-01-01 to January 1st of year `y`: 365 per year plus one per
/// leap year in between.
pub open spec fn days_before_year(y: int) -> int {
    365 * (y - 1970) + leap_count(y - 1) - leap_count(1969)
}

/// Days from January 1st of year `y` to the first day of month `m`.
pub open spec fn days_before_month(y: int, m: int) -> int {
    let base: int = if m <= 1 {
        0
    } else if m == 2 {
        31
    } else if m == 3 {
        59
    } else if m == 4 {
        90
    } else if m == 5 {
        120
    } else if m == 6 {
        151
    } else if m == 7 {
        181
    } else if m == 8 {
        212
    } else if m == 9 {
        243
    } else if m == 10 {
        273
    } else if m == 11 {
        304
    } else {
        334
    };
    base + if m > 2 && is_leap_year(y) { 1int } else { 0int }
}

/// The day number of `(y, m, d)`: days elapsed since 1970-01-01.
pub open spec fn day_number(y: int, m: int, d: int) -> int {
    days_before_year(y) + days_before_month(y, m) + d - 1
}

/// The calendar date whose day number is `z`.
pub open spec fn date_of_day(z: int) -> (int, int, int) {
    choose|t: (int, int, int)| is_valid_date(t.0, t.1, t.2) && day_number(t.0, t.1, t.2) == z
}

// ---- Proof machinery -------------------------------------------------------

/// Day offset of year `t` of a 400-year era, counting years from March.
pub open spec fn era_year_start(t: int) -> int {
    365 * t + t / 4 - t / 100
}

/// Days from March 1st of year 0 to March 1st of year `y`.
pub open spec fn march_year_start(y: int) -> int {
    365 * y + y / 4 - y / 100 + y / 400
}

/// Days from March 1st to the first day of the `mp`-th month counted from March.
pub open spec fn march_month_start(mp: int) -> int {
    (153 * mp + 2) / 5
}

proof fn lemma_leap_count_step(y: int)
    ensures
        leap_count(y) - leap_count(y - 1) == if is_leap_year(y) { 1int } else { 0int },
{
}

proof fn lemma_march_year_start_era(e: int, t: int)
    requires
        0 <= t < 400,
    ensures
        march_year_start(400 * e + t) == 146097 * e + era_year_start(t),
{
    assert((400 * e + t) / 4 == 100 * e + t / 4);
    assert((400 * e + t) / 100 == 4 * e + t / 100);
    assert((400 * e + t) / 400 == e);
}

/// The day number in terms of the year counted from March.
proof fn lemma_day_number_march(y: int, m: int, d: int)
    requires
        1 <= m <= 12,
    ensures
        m > 2 ==> day_number(y, m, d) == march_year_start(y) + march_month_start(m - 3) + d - 1
            - 719468,
        m <= 2 ==> day_number(y, m, d) == march_year_start(y - 1) + march_month_start(m + 9) + d
            - 1 - 719468,
{
    lemma_leap_count_step(y);
    assert(leap_count(1969) == 477);
}

/// Splits a day of a 400-year era into the year of the era and the day of that year.
proof fn lemma_year_of_era(doe: int)
    requires
        0 <= doe <= 146096,
    ensures
        ({
            let yoe = (doe - doe / 1460 + doe / 36524 - doe / 146096) / 365;
            let doy = doe - era_year_start(yoe);
            &&& 0 <= yoe <= 399
            &&& 0 <= doy <= 365
            &&& doy == 365 ==> ((yoe + 1) % 4 == 0 && ((yoe + 1) % 100 != 0 || yoe == 399))
        }),
{
    let c: int = if doe / 36524 > 3 { 3 } else { doe / 36524 };
    let rem = doe - 36524 * c;
    let q = rem / 1461;
    let rem2 = rem - 1461 * q;
    let r: int = if rem2 / 365 > 3 { 3 } else { rem2 / 365 };
    let s = rem2 - 365 * r;
    assert(0 <= c <= 3);
    assert(0 <= rem <= 36524);
    assert(c < 3 ==> rem < 36524);
    assert(0 <= q <= 24);
    assert(0 <= rem2 <= 1460);
    assert(q == 24 && c < 3 ==> rem2 <= 1459);
    assert(0 <= r <= 3);
    assert(0 <= s <= 365);
    assert(s == 365 ==> r == 3 && rem2 == 1460);
    assert(doe == 36524 * c + 1461 * q + 365 * r + s);
    let f = (24 * c + q + 365 * r + s) / 1460;
    assert(0 <= 24 * c + q + 365 * r + s <= 96 + 1460);
    assert(0 <= f <= 1);
    assert(doe / 1460 == 25 * c + q + f) by {
        assert(doe == 1460 * (25 * c + q) + (24 * c + q + 365 * r + s));
    }
    assert(doe / 36524 - doe / 146096 == c);
    assert(s == 0 ==> f == 0);
    assert(s == 365 ==> f == 1);
    let x = doe - doe / 1460 + doe / 36524 - doe / 146096;
    assert(x == 365 * (100 * c + 4 * q + r) + (s - f));
    assert(0 <= s - f <= 364);
    let yoe = x / 365;
    assert(yoe == 100 * c + 4 * q + r);
    assert(yoe / 4 == 25 * c + q);
    assert(yoe / 100 == c);
    assert(era_year_start(yoe) == 36524 * c + 1461 * q + 365 * r);
}

/// Month and day from the day of a year counted from March.
proof fn lemma_month_of_year(doy: int)
    requires
        0 <= doy <= 365,
    ensures
        ({
            let mp = (5 * doy + 2) / 153;
            &&& 0 <= mp <= 11
            &&& march_month_start(mp) <= doy
            &&& mp < 11 ==> doy < march_month_start(mp + 1)
        }),
{
    let mp = (5 * doy + 2) / 153;
    assert(0 <= mp <= 11);
    if mp == 0 {
    } else if mp == 1 {
    } else if mp == 2 {
    } else if mp == 3 {
    } else if mp == 4 {
    } else if mp == 5 {
    } else if mp == 6 {
    } else if mp == 7 {
    } else if mp == 8 {
    } else if mp == 9 {
    } else if mp == 10 {
    } else {
    }
}

/// Month and day of day `doy` of the year that starts on March 1st of `yy`.
proof fn lemma_date_in_march_year(yy: int, doy: int)
    requires
        0 <= doy <= 365,
        doy == 365 ==> is_leap_year(yy + 1),
    ensures
        ({
            let mp = (5 * doy + 2) / 153;
            let d = doy - march_month_start(mp) + 1;
            let m = if mp < 10 { mp + 3 } else { mp - 9 };
            let y = yy + if m <= 2 { 1int } else { 0int };
            is_valid_date(y, m, d) && day_number(y, m, d) == march_year_start(yy) + doy - 719468
        }),
{
    lemma_month_of_year(doy);
    let mp = (5 * doy + 2) / 153;
    let d = doy - march_month_start(mp) + 1;
    let m = if mp < 10 { mp + 3 } else { mp - 9 };
    let y = yy + if m <= 2 { 1int } else { 0int };
    lemma_day_number_march(y, m, d);
    assert(march_month_start(mp + 1) - march_month_start(mp) == if mp == 11 { 30int } else {
        month_length(2001, m)
    }) by {
        if mp == 0 {
        } else if mp == 1 {
        } else if mp == 2 {
        } else if mp == 3 {
        } else if mp == 4 {
        } else if mp == 5 {
        } else if mp == 6 {
        } else if mp == 7 {
        } else if mp == 8 {
        } else if mp == 9 {
        } else if mp == 10 {
        } else {
        }
    }
    assert(march_month_start(11) == 337);
}

/// The date reached by splitting `zp` (day number plus 719468) into
/// 400-year eras, years counted from March, months and days.
#[verifier::spinoff_prover]
#[verifier::rlimit(40)]
proof fn lemma_civil(zp: int)
    ensures
        ({
            let era = zp / 146097;
            let doe = zp - era * 146097;
            let yoe = (doe - doe / 1460 + doe / 36524 - doe / 146096) / 365;
            let doy = doe - era_year_start(yoe);
            let mp = (5 * doy + 2) / 153;
            let d = doy - march_month_start(mp) + 1;
            let m = if mp < 10 { mp + 3 } else { mp - 9 };
            let y = 400 * era + yoe + if m <= 2 { 1int } else { 0int };
            is_valid_date(y, m, d) && day_number(y, m, d) == zp - 719468
        }),
{
    let era = zp / 146097;
    let doe = zp - era * 146097;
    assert(0 <= doe <= 146096);
    let yoe = (doe - doe / 1460 + doe / 36524 - doe / 146096) / 365;
    lemma_year_of_era(doe);
    let doy = doe - era_year_start(yoe);
    let yy = 400 * era + yoe;
    lemma_march_year_start_era(era, yoe);
    if doy == 365 {
        if yoe == 399 {
            assert(yy + 1 == 400 * (era + 1));
        } else {
            assert((yy + 1) % 4 == (yoe + 1) % 4);
            assert((yy + 1) % 100 == (yoe + 1) % 100);
        }
    }
    lemma_date_in_march_year(yy, doy);
}

proof fn lemma_days_before_year_step(y: int)
    ensures
        days_before_year(y + 1) - days_before_year(y) == 365 + if is_leap_year(y) { 1int } else { 0int },
{
    lemma_leap_count_step(y);
}

proof fn lemma_days_before_year_increasing(y1: int, y2: int)
    requires
        y1 < y2,
    ensures
        days_before_year(y1 + 1) <= days_before_year(y2),
    decreases y2 - y1,
{
    if y1 + 1 < y2 {
        lemma_days_before_year_increasing(y1 + 1, y2);
        lemma_days_before_year_step(y1 + 1);
    }
}

/// Where a valid date falls inside its year.
proof fn lemma_day_within_year(y: int, m: int, d: int)
    requires
        is_valid_date(y, m, d),
    ensures
        days_before_year(y) <= day_number(y, m, d) < days_before_year(y + 1),
        forall|m2: int|
            m < m2 <= 12 ==> days_before_month(y, m) + month_length(y, m) <= #[trigger] days_before_month(
                y,
                m2,
            ),
{
    lemma_days_before_year_step(y);
}

/// Distinct valid dates have distinct day numbers.
pub proof fn lemma_day_number_injective(y1: int, m1: int, d1: int, y2: int, m2: int, d2: int)
    requires
        is_valid_date(y1, m1, d1),
        is_valid_date(y2, m2, d2),
        day_number(y1, m1, d1) == day_number(y2, m2, d2),
    ensures
        y1 == y2 && m1 == m2 && d1 == d2,
{
    lemma_day_within_year(y1, m1, d1);
    lemma_day_within_year(y2, m2, d2);
    if y1 < y2 {
        lemma_days_before_year_increasing(y1, y2);
    } else if y2 < y1 {
        lemma_days_before_year_increasing(y2, y1);
    }
    assert(y1 == y2);
    if m1 < m2 {
        assert(days_before_month(y1, m1) + month_length(y1, m1) <= days_before_month(y1, m2));
    } else if m2 < m1 {
        assert(days_before_month(y2, m2) + month_length(y2, m2) <= days_before_month(y2, m1));
    }
}

/// Every day number has a calendar date, and `date_of_day` finds it.
pub proof fn lemma_date_of_day(z: int)
    ensures
        is_valid_date(date_of_day(z).0, date_of_day(z).1, date_of_day(z).2),
        day_number(date_of_day(z).0, date_of_day(z).1, date_of_day(z).2) == z,
{
    let zp = z + 719468;
    lemma_civil(zp);
    let era = zp / 146097;
    let doe = zp - era * 146097;
    let yoe = (doe - doe / 1460 + doe / 36524 - doe / 146096) / 365;
    let doy = doe - era_year_start(yoe);
    let mp = (5 * doy + 2) / 153;
    let d = doy - march_month_start(mp) + 1;
    let m = if mp < 10 { mp + 3 } else { mp - 9 };
    let y = 400 * era + yoe + if m <= 2 { 1int } else { 0int };
    let t = (y, m, d);
    assert(is_valid_date(t.0, t.1, t.2) && day_number(t.0, t.1, t.2) == z);
}

/// A valid date is the date of its own day number.
pub proof fn lemma_date_of_day_number(y: int, m: int, d: int)
    requires
        is_valid_date(y, m, d),
    ensures
        date_of_day(day_number(y, m, d)) == (y, m, d),
{
    let z = day_number(y, m, d);
    lemma_date_of_day(z);
    let t = date_of_day(z);
    lemma_day_number_injective(t.0, t.1, t.2, y, m, d);
}

/// Day numbers of dates with a year in 1900..=2100 and a day below 32.
pub proof fn lemma_day_number_range(y: int, m: int, d: int)
    requires
        1900 <= y <= 2100,
        1 <= m <= 12,
        1 <= d <= 31,
    ensures
        -1_000_000 <= day_number(y, m, d) <= 1_000_000,
{
    assert(-30 <= leap_count(y - 1) - leap_count(1969) <= 40);
}

// ---- Executable calendar functions ------------------------------------------

/// Converts a day number (days since 1970-01-01) to `(year, month, day)`.
///
/// The year is the true year reduced to `i32` by truncation, as `as i32` does.
pub fn civil_from_days(z: i64) -> (r: (i32, u32, u32))
    requires
        z <= i64::MAX - 719468,
    ensures
        r.0 == date_of_day(z as int).0 as i32,
        r.1 as int == date_of_day(z as int).1,
        r.2 as int == date_of_day(z as int).2,
{
    let z = z + 719468;
    let era = if z >= 0 { z } else { z - 146096 } / 146097;
    assert(era as int == (z as int) / 146097);
    let doe = (z - era * 146097) as u32;
    let yoe = (doe - doe / 1460 + doe / 36524 - doe / 146096) / 365;
    proof {
        lemma_year_of_era(doe as int);
    }
    let y = yoe as i64 + era * 400;
    let doy = doe - (365 * yoe + yoe / 4 - yoe / 100);
    let mp = (5 * doy + 2) / 153;
    let d = doy - (153 * mp + 2) / 5 + 1;
    let m = if mp < 10 { mp + 3 } else { mp - 9 };
    let y = if m <= 2 { y + 1 } else { y };
    proof {
        lemma_civil(z as int);
        lemma_date_of_day_number(y as int, m as int, d as int);
    }
    (y as i32, m, d)
}

/// The months counted from March that `days_from_civil` gives month `m`:
/// `m - 3` after February, `m + 9` up to February.
pub open spec fn march_month(m: int) -> int {
    if m > 2 { m - 3 } else { m + 9 }
}

/// The year counted from March that holds month `m` of year `y`.
pub open spec fn march_year(y: int, m: int) -> int {
    if m <= 2 { y - 1 } else { y }
}

/// The day count that `days_from_civil` computes for `(y, m, d)`, for any
/// month number: the day number for a date, and the same formula carried on
/// for other months and days.
pub open spec fn civil_day_count(y: int, m: int, d: int) -> int {
    march_year_start(march_year(y, m)) + march_month_start(march_month(m)) + d - 1 - 719468
}

/// `days_from_civil`'s unsigned 32-bit steps stay in range: the month
/// offset, the day of the year, and the day of the 400-year era.
pub open spec fn civil_steps_fit(y: int, m: int, d: int) -> bool {
    let yp = march_year(y, m);
    &&& 153 * march_month(m) + 2 <= u32::MAX
    &&& 1 <= march_month_start(march_month(m)) + d <= u32::MAX
    &&& march_month_start(march_month(m)) + d - 1 + era_year_start(yp - (yp / 400) * 400) <= u32::MAX
}

/// Converts `(year, month, day)` to a day number (days since 1970-01-01).
/// A day past the end of the month counts on into the following days; a
/// month number past 12 goes on with the same formula.
pub fn days_from_civil(y: i32, m: u32, d: u32) -> (r: i64)
    requires
        civil_steps_fit(y as int, m as int, d as int),
    ensures
        r as int == civil_day_count(y as int, m as int, d as int),
        1 <= m <= 12 ==> r as int == day_number(y as int, m as int, d as int),
{
    let y = if m <= 2 { y as i64 - 1 } else { y as i64 };
    let era = if y >= 0 { y } else { y - 399 } / 400;
    assert(era as int == (y as int) / 400);
    let yoe = (y - era * 400) as u32;
    let m = m as u32;
    let doy = (153 * (if m > 2 { m - 3 } else { m + 9 }) + 2) / 5 + d - 1;
    proof {
        assert(0 <= yoe < 400);
        assert(era_year_start(yoe as int) <= 146096) by (nonlinear_arith)
            requires
                0 <= yoe < 400,
        ;
    }
    let doe = yoe * 365 + yoe / 4 - yoe / 100 + doy;
    proof {
        lemma_march_year_start_era(era as int, yoe as int);
        if 1 <= m <= 12 {
            lemma_day_number_march(if m <= 2 { y + 1 } else { y as int }, m as int, d as int);
        }
    }
    era * 146097 + doe as i64 - 719468
}

/// Number of days in month `m` of year `y`; 30 for a number that is not a month.
pub fn last_day_of_month(y: i32, m: u32) -> (r: u32)
    ensures
        1 <= m <= 12 ==> r as int == month_length(y as int, m as int),
        !(1 <= m <= 12) ==> r == 30,
{
    match m {
        1 | 3 | 5 | 7 | 8 | 10 | 12 => 31,
        4 | 6 | 9 | 11 => 30,
        2 => {
            if (y % 4 == 0 && y % 100 != 0) || (y % 400 == 0) {
                29
            } else {
                28
            }
        },
        _ => 30,
    }
}

} // verus!
