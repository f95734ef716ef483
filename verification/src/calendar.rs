//! Proleptic Gregorian calendar arithmetic shared by the timestamp formatters.
//!
//! Days are counted from 1970-01-01 (negative before it). The conversion
//! steps whole years back from 1970 while the count is negative, walks whole
//! years forward, and then whole months forward from January, exactly as a
//! person would count on a calendar; the laws at the end of this file show
//! that the resulting date is a real calendar date that counts back to the
//! same day.

use vstd::prelude::*;

verus! {

/// Seconds in one day.
pub const SECS_PER_DAY: i64 = 86_400;

/// A year is a leap year when divisible by 4 but not by 100, or divisible by 400.
pub open spec fn leap(y: int) -> bool {
    (y % 4 == 0 && y % 100 != 0) || y % 400 == 0
}

/// Number of days in year `y`.
pub open spec fn year_len(y: int) -> int {
    if leap(y) {
        366
    } else {
        365
    }
}

/// Number of days in month `m` (0 = January) of year `y`.
pub open spec fn month_len(y: int, m: int) -> int {
    if m == 1 {
        if leap(y) {
            29
        } else {
            28
        }
    } else if m == 3 || m == 5 || m == 8 || m == 10 {
        30
    } else {
        31
    }
}

/// Consume whole years starting at year `y` while `days` still covers the
/// current year; yields the year reached and the days left over in it.
pub open spec fn year_walk(days: int, y: int) -> (int, int)
    decreases days,
{
    if days < year_len(y) {
        (y, days)
    } else {
        year_walk(days - year_len(y), y + 1)
    }
}

/// Consume whole months of year `y`, starting at month `m`, while `days`
/// still covers the current month; yields the month reached (0-based) and
/// the days left over in it.
pub open spec fn month_walk(days: int, y: int, m: int) -> (int, int)
    decreases 12 - m,
{
    if m < 12 && days >= month_len(y, m) {
        month_walk(days - month_len(y, m), y, m + 1)
    } else {
        (m, days)
    }
}

/// Step back whole years from year `y` while `days` is negative; yields the
/// year reached and the (no longer negative) days into it.
pub open spec fn year_back(days: int, y: int) -> (int, int)
    decreases (if days < 0 {
        -days
    } else {
        0
    }),
{
    if days < 0 {
        year_back(days + year_len(y - 1), y - 1)
    } else {
        (y, days)
    }
}

/// The (year, month, day) reached from 1970-01-01 by counting `days` days
/// (backwards when negative), month and day 1-based.
pub open spec fn civil(days: int) -> (int, int, int) {
    let (y0, d0) = year_back(days, 1970);
    let (y, rest) = year_walk(d0, y0);
    let (m, d) = month_walk(rest, y, 0);
    (y, m + 1, d + 1)
}

/// The calendar fields (year, month, day, hour, minute, second) of Unix time `t`.
pub open spec fn civil_of_unix(t: int) -> (int, int, int, int, int, int) {
    let days = t / 86400;
    let tod = t % 86400;
    let (y, m, d) = civil(days);
    (y, m, d, tod / 3600, (tod % 3600) / 60, tod % 60)
}

/// Days from 1970-01-01 to January 1st of year `y` (negative before 1970).
pub open spec fn days_before_year(y: int) -> int
    decreases (if y > 1970 {
        y - 1970
    } else {
        1970 - y
    }),
{
    if y > 1970 {
        days_before_year(y - 1) + year_len(y - 1)
    } else if y < 1970 {
        days_before_year(y + 1) - year_len(y)
    } else {
        0
    }
}

/// Days in the months of year `y` before month `m` (0-based).
pub open spec fn days_before_month(y: int, m: int) -> int
    decreases m,
{
    if m <= 0 {
        0
    } else {
        days_before_month(y, m - 1) + month_len(y, m - 1)
    }
}

/// The fields of a calendar date and time of day.
pub struct UtcDateTime {
    pub year: i64,
    pub month: i64,
    pub day: i64,
    pub hour: i64,
    pub minute: i64,
    pub second: i64,
}

impl UtcDateTime {
    /// The fields as a tuple of integers.
    pub open spec fn fields(self) -> (int, int, int, int, int, int) {
        (
            self.year as int,
            self.month as int,
            self.day as int,
            self.hour as int,
            self.minute as int,
            self.second as int,
        )
    }
}

/// Whether `y` is a leap year.
#[verifier::spinoff_prover]
pub fn is_leap_year(y: i64) -> (r: bool)
    ensures
        r == leap(y as int),
{
    (y % 4 == 0 && y % 100 != 0) || y % 400 == 0
}

fn days_in_year(y: i64) -> (r: i64)
    ensures
        r == year_len(y as int),
{
    if is_leap_year(y) {
        366
    } else {
        365
    }
}

fn days_in_month(y: i64, m: i64) -> (r: i64)
    ensures
        r == month_len(y as int, m as int),
{
    if m == 1 {
        if is_leap_year(y) {
            29
        } else {
            28
        }
    } else if m == 3 || m == 5 || m == 8 || m == 10 {
        30
    } else {
        31
    }
}

/// Split Unix time `secs` (seconds since 1970-01-01 00:00:00 UTC, negative
/// before it) into calendar fields.
pub fn civil_from_unix(secs: i64) -> (r: UtcDateTime)
    ensures
        r.fields() == civil_of_unix(secs as int),
{
    let d0: i64 = match secs.checked_div_euclid(SECS_PER_DAY) {
        Some(d) => d,
        None => 0,
    };
    let tod: i64 = match secs.checked_rem_euclid(SECS_PER_DAY) {
        Some(r) => r,
        None => 0,
    };
    assert(d0 == secs as int / 86400);
    assert(tod == secs as int % 86400);
    assert(i64::MIN / 86400 <= d0 <= i64::MAX / 86400) by (nonlinear_arith)
        requires
            d0 == secs as int / 86400,
            i64::MIN <= secs <= i64::MAX,
    ;
    let mut days: i64 = d0;
    let mut year: i64 = 1970;
    while days < 0
        invariant
            year_back(d0 as int, 1970) == year_back(days as int, year as int),
            year <= 1970,
            d0 <= days,
            1970 - year <= days - d0,
            i64::MIN / 86400 <= d0 <= i64::MAX / 86400,
            days < 366 || days == d0,
        decreases 366 - days,
    {
        year = year - 1;
        days = days + days_in_year(year);
    }
    let ghost y1 = year as int;
    let ghost d1 = days as int;
    assert(year_back(days as int, year as int) == (y1, d1));
    while days >= days_in_year(year)
        invariant
            year_walk(d1, y1) == year_walk(days as int, year as int),
            y1 <= year,
            y1 <= 1970,
            0 <= days <= d1,
            d1 < 366 || d1 == d0,
            year - y1 <= d1 - days,
            i64::MIN / 86400 <= d0 <= i64::MAX / 86400,
        decreases days,
    {
        days = days - days_in_year(year);
        year = year + 1;
    }
    assert(year_walk(days as int, year as int) == (year as int, days as int));
    let ghost rest = days as int;
    let mut month: i64 = 0;
    while month < 12 && days >= days_in_month(year, month)
        invariant
            0 <= month <= 12,
            month_walk(rest, year as int, 0) == month_walk(days as int, year as int, month as int),
            days <= rest,
            0 <= rest,
        decreases 12 - month,
    {
        days = days - days_in_month(year, month);
        month = month + 1;
    }
    UtcDateTime {
        year,
        month: month + 1,
        day: days + 1,
        hour: tod / 3600,
        minute: (tod % 3600) / 60,
        second: tod % 60,
    }
}

/// A calendar year is the sum of its twelve months.
pub proof fn lemma_months_fill_year(y: int)
    ensures
        days_before_month(y, 12) == year_len(y),
{
    reveal_with_fuel(days_before_month, 13);
}

proof fn lemma_year_step(y: int)
    ensures
        days_before_year(y + 1) == days_before_year(y) + year_len(y),
{
}

proof fn lemma_year_back(days: int, y: int)
    ensures
        year_back(days, y).1 >= 0,
        days + days_before_year(y) == days_before_year(year_back(days, y).0) + year_back(days, y).1,
        days >= 0 ==> year_back(days, y) == (y, days),
        days < 0 ==> year_back(days, y).0 < y,
        days < 0 ==> year_back(days, y).1 < year_len(year_back(days, y).0),
    decreases (if days < 0 {
        -days
    } else {
        0
    }),
{
    if days < 0 {
        lemma_year_step(y - 1);
        lemma_year_back(days + year_len(y - 1), y - 1);
    }
}

proof fn lemma_year_walk(days: int, y: int)
    requires
        days >= 0,
    ensures
        year_walk(days, y).0 >= y,
        0 <= year_walk(days, y).1 < year_len(year_walk(days, y).0),
        days < year_len(y) ==> year_walk(days, y) == (y, days),
        days + days_before_year(y) == days_before_year(year_walk(days, y).0) + year_walk(
            days,
            y,
        ).1,
    decreases days,
{
    if days >= year_len(y) {
        lemma_year_step(y);
        lemma_year_walk(days - year_len(y), y + 1);
    }
}

proof fn lemma_month_walk(days: int, y: int, m: int)
    requires
        days >= 0,
        0 <= m <= 12,
        days + days_before_month(y, m) < days_before_month(y, 12),
    ensures
        m <= month_walk(days, y, m).0 < 12,
        0 <= month_walk(days, y, m).1 < month_len(y, month_walk(days, y, m).0),
        days + days_before_month(y, m) == days_before_month(y, month_walk(days, y, m).0)
            + month_walk(days, y, m).1,
    decreases 12 - m,
{
    if m < 12 && days >= month_len(y, m) {
        lemma_month_walk(days - month_len(y, m), y, m + 1);
    }
}

/// Counting from 1970-01-01 gives a real calendar date: the month lies in
/// 1..=12, the day in 1..=the length of that month, the year is 1970 or
/// later exactly when the count is not negative, and counting the days of
/// the whole years and months before it, plus the day, gives back the number
/// of days that was converted.
pub proof fn lemma_civil_is_calendar_date(days: int)
    ensures
        civil(days).0 >= 1970 <==> days >= 0,
        1 <= civil(days).1 <= 12,
        1 <= civil(days).2 <= month_len(civil(days).0, civil(days).1 - 1),
        days == days_before_year(civil(days).0) + days_before_month(civil(days).0, civil(days).1 - 1)
            + civil(days).2 - 1,
{
    lemma_year_back(days, 1970);
    let (y0, d0) = year_back(days, 1970);
    lemma_year_walk(d0, y0);
    let (y, rest) = year_walk(d0, y0);
    lemma_months_fill_year(y);
    assert(days_before_month(y, 0) == 0);
    lemma_month_walk(rest, y, 0);
}

/// The time of day of Unix time `t` is a valid clock reading that counts
/// back to the seconds elapsed since midnight, and the day part counts back
/// to `t`.
pub proof fn lemma_time_of_day(t: int)
    ensures
        0 <= civil_of_unix(t).3 < 24,
        0 <= civil_of_unix(t).4 < 60,
        0 <= civil_of_unix(t).5 < 60,
        civil_of_unix(t).3 * 3600 + civil_of_unix(t).4 * 60 + civil_of_unix(t).5 == t % 86400,
        (t / 86400) * 86400 + t % 86400 == t,
{
    let tod = t % 86400;
    assert(0 <= tod < 86400);
    assert(tod == (tod / 3600) * 3600 + tod % 3600) by (nonlinear_arith);
    assert(tod % 3600 == ((tod % 3600) / 60) * 60 + (tod % 3600) % 60) by (nonlinear_arith);
    assert((tod % 3600) % 60 == tod % 60) by (nonlinear_arith)
        requires
            0 <= tod,
    ;
    assert(tod / 3600 < 24) by (nonlinear_arith)
        requires
            0 <= tod < 86400,
    ;
    assert((t / 86400) * 86400 + t % 86400 == t) by (nonlinear_arith);
}

} // verus!

verus! {

/// The day count from 1970-01-01 of the date `(y, m, d)`, month and day
/// 1-based.
pub open spec fn day_number(y: int, m: int, d: int) -> int {
    days_before_year(y) + days_before_month(y, m - 1) + d - 1
}

/// Whether `(y, m, d)` is a real calendar date.
pub open spec fn valid_date(y: int, m: int, d: int) -> bool {
    1 <= m <= 12 && 1 <= d <= month_len(y, m - 1)
}

/// Lexicographic order on dates.
pub open spec fn date_before(a: (int, int, int), b: (int, int, int)) -> bool {
    ||| a.0 < b.0
    ||| a.0 == b.0 && a.1 < b.1
    ||| a.0 == b.0 && a.1 == b.1 && a.2 < b.2
}

/// Lexicographic order on calendar fields (year, month, day, hour, minute,
/// second).
pub open spec fn fields_before(
    a: (int, int, int, int, int, int),
    b: (int, int, int, int, int, int),
) -> bool {
    ||| date_before((a.0, a.1, a.2), (b.0, b.1, b.2))
    ||| (a.0, a.1, a.2) == (b.0, b.1, b.2) && date_before((a.3, a.4, a.5), (b.3, b.4, b.5))
}

proof fn lemma_years_grow(y1: int, y2: int)
    requires
        y1 < y2,
    ensures
        days_before_year(y1) + year_len(y1) <= days_before_year(y2),
    decreases y2 - y1,
{
    lemma_year_step(y1);
    if y1 + 1 < y2 {
        lemma_years_grow(y1 + 1, y2);
    }
}

proof fn lemma_months_nonneg(y: int, m: int)
    ensures
        days_before_month(y, m) >= 0,
    decreases m,
{
    if m > 0 {
        lemma_months_nonneg(y, m - 1);
    }
}

proof fn lemma_months_grow(y: int, m1: int, m2: int)
    requires
        0 <= m1 < m2 <= 12,
    ensures
        days_before_month(y, m1) + month_len(y, m1) <= days_before_month(y, m2),
        days_before_month(y, m1) >= 0,
    decreases m2 - m1,
{
    lemma_months_nonneg(y, m1);
    if m1 + 1 < m2 {
        lemma_months_grow(y, m1, m2 - 1);
    }
}

proof fn lemma_day_number_bounds(y: int, m: int, d: int)
    requires
        valid_date(y, m, d),
    ensures
        days_before_year(y) <= day_number(y, m, d) < days_before_year(y) + year_len(y),
        days_before_year(y) + days_before_month(y, m - 1) <= day_number(y, m, d),
        day_number(y, m, d) < days_before_year(y) + days_before_month(y, m - 1) + month_len(y, m - 1),
{
    lemma_months_fill_year(y);
    if m - 1 < 12 {
        lemma_months_grow(y, m - 1, 12);
    }
}

proof fn lemma_dates_ordered(a: (int, int, int), b: (int, int, int))
    requires
        valid_date(a.0, a.1, a.2),
        valid_date(b.0, b.1, b.2),
        date_before(a, b),
    ensures
        day_number(a.0, a.1, a.2) < day_number(b.0, b.1, b.2),
{
    lemma_day_number_bounds(a.0, a.1, a.2);
    lemma_day_number_bounds(b.0, b.1, b.2);
    if a.0 < b.0 {
        lemma_years_grow(a.0, b.0);
    } else if a.1 < b.1 {
        lemma_months_grow(a.0, a.1 - 1, b.1 - 1);
    }
}

proof fn lemma_clock_ordered(a: (int, int, int), b: (int, int, int))
    requires
        0 <= a.1 < 60 && 0 <= a.2 < 60,
        0 <= b.1 < 60 && 0 <= b.2 < 60,
        date_before(a, b),
    ensures
        a.0 * 3600 + a.1 * 60 + a.2 < b.0 * 3600 + b.1 * 60 + b.2,
{
}

/// Later instants have later calendar fields: `a` comes before `b` exactly
/// when the (year, month, day, hour, minute, second) of `a` come before
/// those of `b` in lexicographic order.
pub proof fn lemma_unix_order(a: int, b: int)
    ensures
        a < b <==> fields_before(civil_of_unix(a), civil_of_unix(b)),
{
    let fa = civil_of_unix(a);
    let fb = civil_of_unix(b);
    lemma_civil_is_calendar_date(a / 86400);
    lemma_civil_is_calendar_date(b / 86400);
    lemma_time_of_day(a);
    lemma_time_of_day(b);
    let da = (fa.0, fa.1, fa.2);
    let db = (fb.0, fb.1, fb.2);
    let ca = (fa.3, fa.4, fa.5);
    let cb = (fb.3, fb.4, fb.5);
    assert(day_number(fa.0, fa.1, fa.2) == a / 86400);
    assert(day_number(fb.0, fb.1, fb.2) == b / 86400);
    if date_before(da, db) {
        lemma_dates_ordered(da, db);
    }
    if date_before(db, da) {
        lemma_dates_ordered(db, da);
    }
    if date_before(ca, cb) {
        lemma_clock_ordered(ca, cb);
    }
    if date_before(cb, ca) {
        lemma_clock_ordered(cb, ca);
    }
    assert(a / 86400 < b / 86400 ==> a < b) by (nonlinear_arith)
        requires
            (a / 86400) * 86400 + a % 86400 == a,
            (b / 86400) * 86400 + b % 86400 == b,
            0 <= a % 86400 < 86400,
            0 <= b % 86400 < 86400,
    ;
    assert(a < b ==> a / 86400 <= b / 86400) by (nonlinear_arith)
        requires
            (a / 86400) * 86400 + a % 86400 == a,
            (b / 86400) * 86400 + b % 86400 == b,
            0 <= a % 86400 < 86400,
            0 <= b % 86400 < 86400,
    ;
}

} // verus!

verus! {

/// The Gregorian month lengths: January, March, May, July, August,
/// October and December have 31 days; April, June, September and November
/// 30; February 28, or 29 in a leap year. So, counting from January 1st,
/// the months of a common year start on days 0, 31, 59, 90, 120, 151, 181,
/// 212, 243, 273, 304 and 334 (one later from March on in a leap year), and
/// the year has 365 days (366 in a leap year).
pub proof fn lemma_gregorian_months(y: int)
    ensures
        month_len(y, 0) == 31,
        month_len(y, 1) == (if leap(y) {
            29int
        } else {
            28int
        }),
        month_len(y, 2) == 31,
        month_len(y, 3) == 30,
        month_len(y, 4) == 31,
        month_len(y, 5) == 30,
        month_len(y, 6) == 31,
        month_len(y, 7) == 31,
        month_len(y, 8) == 30,
        month_len(y, 9) == 31,
        month_len(y, 10) == 30,
        month_len(y, 11) == 31,
        ({
            let l: int = if leap(y) {
                1
            } else {
                0
            };
            &&& days_before_month(y, 0) == 0
            &&& days_before_month(y, 1) == 31
            &&& days_before_month(y, 2) == 59 + l
            &&& days_before_month(y, 3) == 90 + l
            &&& days_before_month(y, 4) == 120 + l
            &&& days_before_month(y, 5) == 151 + l
            &&& days_before_month(y, 6) == 181 + l
            &&& days_before_month(y, 7) == 212 + l
            &&& days_before_month(y, 8) == 243 + l
            &&& days_before_month(y, 9) == 273 + l
            &&& days_before_month(y, 10) == 304 + l
            &&& days_before_month(y, 11) == 334 + l
            &&& days_before_month(y, 12) == 365 + l
            &&& year_len(y) == 365 + l
        }),
{
    reveal_with_fuel(days_before_month, 13);
}

/// The day number within its year of the 1-based Gregorian date `(m, d)`,
/// from a table of month starts.
pub open spec fn gregorian_day_of_year(m: int, d: int, leap_year: bool) -> int {
    let l: int = if leap_year {
        1
    } else {
        0
    };
    let start: int = if m == 1 {
        0
    } else if m == 2 {
        31
    } else if m == 3 {
        59 + l
    } else if m == 4 {
        90 + l
    } else if m == 5 {
        120 + l
    } else if m == 6 {
        151 + l
    } else if m == 7 {
        181 + l
    } else if m == 8 {
        212 + l
    } else if m == 9 {
        243 + l
    } else if m == 10 {
        273 + l
    } else if m == 11 {
        304 + l
    } else {
        334 + l
    };
    start + d - 1
}

/// The date of a day count is a Gregorian date: the day is at most 31, at
/// most 30 in April, June, September and November, at most 28 in February
/// of a common year and 29 of a leap year; and the day count is the days
/// before its year plus its place in the year by the table of month starts.
pub proof fn lemma_civil_is_gregorian(days: int)
    ensures
        ({
            let (y, m, d) = civil(days);
            &&& 1 <= m <= 12
            &&& 1 <= d <= 31
            &&& (m == 4 || m == 6 || m == 9 || m == 11) ==> d <= 30
            &&& m == 2 ==> d <= (if leap(y) {
                29int
            } else {
                28int
            })
            &&& days == days_before_year(y) + gregorian_day_of_year(m, d, leap(y))
        }),
{
    lemma_civil_is_calendar_date(days);
    let (y, m, d) = civil(days);
    lemma_gregorian_months(y);
}

} // verus!
