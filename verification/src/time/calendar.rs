//! The proleptic Gregorian calendar on the axis that `Time` counts on: day 0
//! is 0000-01-01, and every later date has a day number.

use vstd::prelude::*;

verus! {

/// Seconds in a minute.
pub const SECS_PER_MINUTE: u64 = 60;

/// Seconds in an hour.
pub const SECS_PER_HOUR: u64 = 3600;

/// Seconds in a day.
pub const SECS_PER_DAY: u64 = 86400;

/// Days in 400 years, 97 of them leap years.
pub const DAYS_PER_400_YEARS: u32 = 146097;

/// Days in 100 years of which the first is no leap year: 24 leap years.
pub const DAYS_PER_100_YEARS: u32 = 36524;

/// Days in 4 years, one of them a leap year.
pub const DAYS_PER_4_YEARS: u32 = 1461;

/// Days of a common year that lie before the first of each month; the last
/// entry is the length of the year.
pub const DAYS_BEFORE: [u32; 13] = [0, 31, 59, 90, 120, 151, 181, 212, 243, 273, 304, 334, 365];

/// The Gregorian rule: every fourth year is a leap year, except the
/// centuries, of which only every fourth is one.
pub open spec fn leap_year(y: int) -> bool {
    y % 4 == 0 && (y % 100 != 0 || y % 400 == 0)
}

/// The number of days of month `m` (1 to 12).
pub open spec fn days_in_month(leap: bool, m: int) -> int {
    if m == 2 {
        if leap {
            29
        } else {
            28
        }
    } else if m == 4 || m == 6 || m == 9 || m == 11 {
        30
    } else {
        31
    }
}

/// The number of days of a common year that lie before the first of month
/// `m`; for 13, the length of the year.
pub open spec fn days_before_month(m: int) -> int {
    if m <= 1 {
        0
    } else if m == 2 {
        31
    } else if m == 3 {
        59
    } else if m == 4 {
        90
    } else if m == 5 {
        120
    } else if m == 6 {
        151
    } else if m == 7 {
        181
    } else if m == 8 {
        212
    } else if m == 9 {
        243
    } else if m == 10 {
        273
    } else if m == 11 {
        304
    } else if m == 12 {
        334
    } else {
        365
    }
}

/// The number of leap years among the years 1 to `y`.
pub open spec fn leap_years_through(y: int) -> int {
    y / 4 - y / 100 + y / 400
}

/// The length that the axis gives to year `y`. Year 0 is the one exception to
/// the calendar: it is a leap year, and its 29 February is accepted, but the
/// axis counts it as 365 days, so that this day and 1 March share a number.
pub open spec fn days_in_year(y: int) -> int {
    if y > 0 && leap_year(y) {
        366
    } else {
        365
    }
}

/// The day number of 1 January of year `y`: 365 days for each year before
/// it, and one more for each leap year among the years 1 to `y - 1`.
pub open spec fn days_before_year(y: int) -> int {
    if y <= 0 {
        0
    } else {
        365 * y + leap_years_through(y - 1)
    }
}

/// The day number of a date: the years before it, the months before it (with
/// the leap day once February is over) and the days before it in its month.
pub open spec fn day_number(y: int, m: int, d: int) -> int {
    days_before_year(y) + days_before_month(m) + (if m > 2 && days_in_year(y) == 366 {
        1int
    } else {
        0int
    }) + (d - 1)
}

/// What the cycle arithmetic computes for year `y`: whole cycles of 400, 100
/// and 4 years and the single years left over, each cycle counted with the
/// leap days that it holds.
pub open spec fn cycle_days(y: int) -> int {
    146097 * (y / 400) + 36524 * ((y % 400) / 100) + 1461 * ((y % 100) / 4) + 365 * (y % 4)
}

/// One more year adds one to the number of leap years exactly when it is one.
pub proof fn lemma_leap_step(y: int)
    requires
        1 <= y,
    ensures
        leap_years_through(y) == leap_years_through(y - 1) + if leap_year(y) {
            1int
        } else {
            0int
        },
{
    assert(y / 4 == (y - 1) / 4 + if y % 4 == 0 { 1int } else { 0int });
    assert(y / 100 == (y - 1) / 100 + if y % 100 == 0 { 1int } else { 0int });
    assert(y / 400 == (y - 1) / 400 + if y % 400 == 0 { 1int } else { 0int });
    assert(y % 100 == 0 ==> y % 4 == 0);
    assert(y % 400 == 0 ==> y % 100 == 0);
}

/// The cycle arithmetic agrees with the count year by year: it gives the day
/// number of 1 January, and in a leap year one day more, the leap day that
/// the cycle already holds.
pub proof fn lemma_cycle_days(y: int)
    requires
        0 <= y,
    ensures
        cycle_days(y) == days_before_year(y) + if days_in_year(y) == 366 {
            1int
        } else {
            0int
        },
{
    if y > 0 {
        lemma_leap_step(y);
        let q = y / 400;
        let r = y % 400;
        let c = r / 100;
        let s = r % 100;
        assert(y == 400 * q + r);
        assert(y % 100 == s);
        assert(y / 100 == 4 * q + c);
        assert(y / 4 == 100 * q + 25 * c + s / 4);
        assert(y % 4 == s % 4);
        assert(s == 4 * (s / 4) + s % 4);
    }
}

/// No year up to 10000 starts later than day 3652424, the first day of year
/// 10000.
pub proof fn lemma_days_before_year_bound(y: int)
    requires
        0 <= y <= 10000,
    ensures
        0 <= days_before_year(y) <= 3652424,
        days_before_year(10000) == 3652424,
{
}

/// The table holds the days before each month.
pub proof fn lemma_days_before_table(m: int)
    requires
        1 <= m <= 13,
    ensures
        DAYS_BEFORE[m - 1] == days_before_month(m),
{
}

} // verus!
