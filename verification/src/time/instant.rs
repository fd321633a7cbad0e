//! `Time`: an instant between year 0 and year 10000, built from a civil date
//! and time of day in a fixed zone.

use vstd::prelude::*;
use std::time::Duration;
use crate::std_specs::duration_nanos;
use super::calendar::{
    cycle_days, day_number, days_in_month, leap_year, lemma_cycle_days, lemma_days_before_table,
    lemma_days_before_year_bound, DAYS_BEFORE, DAYS_PER_100_YEARS, DAYS_PER_400_YEARS,
    DAYS_PER_4_YEARS, SECS_PER_DAY, SECS_PER_HOUR, SECS_PER_MINUTE,
};
use super::timezone::TimeZone;

verus! {

/// The seconds value of 10000-01-01T00:00:00Z, the first instant out of range.
pub const MAX_SECONDS: u64 = 315569433600;

/// Nanoseconds in a second.
pub const NANOS_PER_SEC: u32 = 1_000_000_000;

/// What a `Time` stands for: whole seconds since 0000-01-01T00:00:00Z and the
/// nanoseconds within the second.
pub struct Instant {
    pub sec: nat,
    pub nano: nat,
}

impl Instant {
    /// Nanoseconds since 0000-01-01T00:00:00Z.
    pub open spec fn total_nanos(self) -> nat {
        self.sec * 1_000_000_000 + self.nano
    }

    /// The order of instants on the time axis: by seconds, then by nanoseconds.
    pub open spec fn before(self, other: Instant) -> bool {
        self.sec < other.sec || (self.sec == other.sec && self.nano < other.nano)
    }
}

/// 1970-01-01T00:00:00Z.
pub open spec fn unix_epoch() -> Instant {
    Instant { sec: 62167132800, nano: 0 }
}

/// Whether the fields name a date that exists and a time of day on a clock
/// without leap seconds.
pub open spec fn valid_civil(y: int, m: int, d: int, h: int, mi: int, s: int, n: int) -> bool {
    &&& 0 <= y <= 10000
    &&& 1 <= m <= 12
    &&& 1 <= d <= days_in_month(leap_year(y), m)
    &&& 0 <= h <= 23
    &&& 0 <= mi <= 59
    &&& 0 <= s <= 59
    &&& 0 <= n <= 999_999_999
}

/// Seconds from 0000-01-01T00:00:00 to the given date and time of day, both
/// read on the same clock.
pub open spec fn civil_seconds(y: int, m: int, d: int, h: int, mi: int, s: int) -> int {
    day_number(y, m, d) * 86400 + h * 3600 + mi * 60 + s
}

/// The instant that a civil date and time denote in a zone `offset` seconds
/// east of UTC, if the fields are valid and the instant lies in
/// [0000-01-01T00:00:00Z, 10000-01-01T00:00:00Z).
pub open spec fn civil_instant(
    y: int,
    m: int,
    d: int,
    h: int,
    mi: int,
    s: int,
    n: int,
    offset: int,
) -> Option<Instant> {
    let sec = civil_seconds(y, m, d, h, mi, s) - offset;
    if valid_civil(y, m, d, h, mi, s, n) && 0 <= sec < MAX_SECONDS {
        Some(Instant { sec: sec as nat, nano: n as nat })
    } else {
        None
    }
}

/// An instant in [0000-01-01T00:00:00Z, 10000-01-01T00:00:00Z), to the
/// nanosecond.
#[derive(Debug, PartialEq, Eq, Structural, Ord)]
pub struct Time {
    sec: u64,
    nano: u32,
}

impl View for Time {
    type V = Instant;

    closed spec fn view(&self) -> Instant {
        Instant { sec: self.sec as nat, nano: self.nano as nat }
    }
}

impl Time {
    #[verifier::type_invariant]
    spec fn well_formed(self) -> bool {
        self.sec < MAX_SECONDS && self.nano < NANOS_PER_SEC
    }

    /// Whole seconds since 0000-01-01T00:00:00Z.
    pub(crate) fn seconds(&self) -> (sec: u64)
        ensures
            sec == self@.sec,
    {
        self.sec
    }

    /// Nanoseconds within the second.
    pub(crate) fn subsec_nanos(&self) -> (nano: u32)
        ensures
            nano == self@.nano,
    {
        self.nano
    }

    /// 1970-01-01T00:00:00Z.
    pub fn unix_epoch() -> (epoch: Time)
        ensures
            epoch@ == unix_epoch(),
    {
        Time { sec: 62167132800, nano: 0 }
    }

    /// The instant that the civil date and time denote in `timezone`, or
    /// nothing if a field is out of range, the day does not exist in that
    /// month, or the instant lies outside
    /// [0000-01-01T00:00:00Z, 10000-01-01T00:00:00Z).
    pub fn from_timetuple(
        year: u32,
        month: u32,
        day: u32,
        hour: u32,
        minute: u32,
        second: u32,
        nano: u32,
        timezone: TimeZone,
    ) -> (time: Option<Time>)
        ensures
            match time {
                Some(t) => civil_instant(
                    year as int,
                    month as int,
                    day as int,
                    hour as int,
                    minute as int,
                    second as int,
                    nano as int,
                    timezone@,
                ) == Some(t@),
                None => civil_instant(
                    year as int,
                    month as int,
                    day as int,
                    hour as int,
                    minute as int,
                    second as int,
                    nano as int,
                    timezone@,
                ) is None,
            },
    {
        if !in_range(year, 0, 10000) || !in_range(month, 1, 12) || !in_range(day, 1, 31)
            || !in_range(hour, 0, 23) || !in_range(minute, 0, 59) || !in_range(second, 0, 59)
            || !in_range(nano, 0, NANOS_PER_SEC - 1) {
            return None;
        }
        let is_leap = is_leap_year(year);
        if !is_day_validate(is_leap, month, day) {
            return None;
        }
        let d: u32 = days_to_date(year, month, day);
        let mut sec: u64 = d as u64 * SECS_PER_DAY + hour as u64 * SECS_PER_HOUR + minute as u64
            * SECS_PER_MINUTE + second as u64;

        let offset: i32 = timezone.offset();
        if offset >= 0 {
            let minus: u64 = offset as u64;
            if minus > sec {
                return None;
            }
            sec -= minus;
        } else {
            sec += (-offset) as u64;
        }

        if sec >= MAX_SECONDS {
            return None;
        }
        Some(Time { sec: sec, nano: nano })
    }

    /// The time as the span since the Unix epoch, 1970-01-01T00:00:00Z, from
    /// which the standard library counts; nothing for a time before it.
    pub fn to_system_time(&self) -> (span: Option<Duration>)
        ensures
            span is None <==> self@.before(unix_epoch()),
            span matches Some(d) ==> duration_nanos(d) == self@.total_nanos()
                - unix_epoch().total_nanos(),
    {
        let epoch = Time::unix_epoch();
        self.since(&epoch)
    }

    /// The span from `earlier` to this time; nothing if this time is the
    /// earlier of the two.
    pub fn since(&self, earlier: &Time) -> (span: Option<Duration>)
        ensures
            span is None <==> self@.before(earlier@),
            span matches Some(d) ==> duration_nanos(d) == self@.total_nanos()
                - earlier@.total_nanos(),
    {
        proof {
            use_type_invariant(self);
            use_type_invariant(earlier);
        }
        if self < earlier {
            return None;
        }
        let mut sec: u64 = self.sec - earlier.sec;
        let mut nano: u32 = self.nano;
        if nano < earlier.nano {
            sec -= 1;
            nano += NANOS_PER_SEC;
        }
        nano -= earlier.nano;
        Some(Duration::new(sec, nano))
    }
}

/// The days of the whole cycles of 400, 100 and 4 years and of the single
/// years that make up `year` years, each cycle with the leap days it holds.
fn days_in_cycles(year: u32) -> (d: u32)
    requires
        year <= 10000,
    ensures
        d == cycle_days(year as int),
        d <= 3652425,
{
    let mut d: u32 = 0;
    let mut y: u32 = year;

    let mut n: u32 = y / 400;
    y -= 400 * n;
    d += DAYS_PER_400_YEARS * n;
    assert(n <= 25 && y == year % 400 && d == 146097 * (year / 400));

    n = y / 100;
    y -= n * 100;
    d += DAYS_PER_100_YEARS * n;
    assert(n <= 3 && y == year % 100 && d == 146097 * (year / 400) + 36524 * ((year % 400)
        / 100));

    n = y / 4;
    y -= n * 4;
    d += DAYS_PER_4_YEARS * n;
    assert(n <= 24 && y == year % 4);

    n = y;
    d += 365 * n;
    d
}

/// The day number of a date that exists, in the years 0 to 10000.
fn days_to_date(year: u32, month: u32, day: u32) -> (d: u32)
    requires
        year <= 10000,
        1 <= month <= 12,
        1 <= day <= days_in_month(leap_year(year as int), month as int),
    ensures
        d == day_number(year as int, month as int, day as int),
        d <= 3652424 + 365,
{
    let is_leap = is_leap_year(year);
    let mut d: u32 = days_in_cycles(year);
    proof {
        lemma_cycle_days(year as int);
        lemma_days_before_table(month as int);
        lemma_days_before_year_bound(year as int);
    }
    let month_index: usize = (month - 1) as usize;
    d += DAYS_BEFORE[month_index];
    // the cycles have counted this year's leap day, which is yet to come
    if year > 0 && is_leap && month <= 2 {
        d -= 1;
    }
    d += day - 1;
    d
}

/// Whether `y` is a leap year of the Gregorian calendar.
pub fn is_leap_year(y: u32) -> (leap: bool)
    ensures
        leap == leap_year(y as int),
{
    y % 4 == 0 && (y % 100 != 0 || y % 400 == 0)
}

/// Whether `n` lies between `min` and `max`, both included.
pub fn in_range(n: u32, min: u32, max: u32) -> (inside: bool)
    ensures
        inside == (min <= n <= max),
{
    min <= n && n <= max
}

/// Whether month `m` has a day `d`, in a leap year or a common one. Day 0 is
/// not asked about: the caller has checked the lower end.
pub fn is_day_validate(is_leap: bool, m: u32, d: u32) -> (valid: bool)
    ensures
        valid == (d <= days_in_month(is_leap, m as int)),
{
    match m {
        2 => if is_leap {
            d <= 29
        } else {
            d <= 28
        },
        4 | 6 | 9 | 11 => d <= 30,
        _ => d <= 31,
    }
}

} // verus!
