//! What holds of every timestamp, proved from the definitions that the
//! contracts of this module use.

use vstd::prelude::*;
use super::calendar::{
    day_number, days_before_month, days_before_year, days_in_month, days_in_year,
    lemma_days_before_year_bound, lemma_leap_step, leap_year,
};
use super::instant::{civil_instant, civil_seconds, unix_epoch, valid_civil};
use super::timezone::zone_offset;
use super::{
    day_field, fraction_nanos, hour_field, minute_field, month_field, second_field,
    timestamp_bytes, year_field, zone_suffix,
};

verus! {

/// The lengths of the months of a common year before month `m`, added up
/// month by month.
pub open spec fn month_lengths_before(m: int) -> int
    decreases m,
{
    if m <= 1 {
        0
    } else {
        month_lengths_before(m - 1) + days_in_month(false, m - 1)
    }
}

/// The lengths of the years from 0 up to `y`, `y` itself left out, added up
/// year by year.
pub open spec fn year_lengths_before(y: int) -> int
    decreases y,
{
    if y <= 0 {
        0
    } else {
        year_lengths_before(y - 1) + days_in_year(y - 1)
    }
}

/// The days before each month of a common year are the lengths of the months
/// before it.
pub proof fn law_days_before_month(m: int)
    requires
        1 <= m <= 13,
    ensures
        days_before_month(m) == month_lengths_before(m),
{
    reveal_with_fuel(month_lengths_before, 14);
}

/// The day number of a new year is the sum of the lengths of the years
/// before it.
pub proof fn law_days_before_year(y: int)
    requires
        0 <= y,
    ensures
        days_before_year(y) == year_lengths_before(y),
    decreases y,
{
    if y > 0 {
        law_days_before_year(y - 1);
        if y - 1 > 0 {
            lemma_leap_step(y - 1);
        }
    }
}

/// The days from 1 January 1970 to 1 January of year `y`, counted year by
/// year: 365 for each, and one more for each leap year.
pub open spec fn days_from_1970(y: int) -> int
    decreases y,
{
    if y <= 1970 {
        0
    } else {
        days_from_1970(y - 1) + if leap_year(y - 1) {
            366int
        } else {
            365int
        }
    }
}

/// Of two times on different days of the same month, read in the same zone,
/// the one on the later day is the later instant, whatever the times of day.
pub proof fn law_later_day_is_later(
    y: int,
    m: int,
    offset: int,
    d1: int,
    h1: int,
    mi1: int,
    s1: int,
    n1: int,
    d2: int,
    h2: int,
    mi2: int,
    s2: int,
    n2: int,
)
    requires
        d1 < d2,
        civil_instant(y, m, d1, h1, mi1, s1, n1, offset) is Some,
        civil_instant(y, m, d2, h2, mi2, s2, n2, offset) is Some,
    ensures
        civil_instant(y, m, d1, h1, mi1, s1, n1, offset).unwrap().before(
            civil_instant(y, m, d2, h2, mi2, s2, n2, offset).unwrap(),
        ),
{
    assert(day_number(y, m, d1) + 1 <= day_number(y, m, d2));
    assert(civil_seconds(y, m, d1, h1, mi1, s1) < civil_seconds(y, m, d2, h2, mi2, s2));
}

/// The same of two timestamps as they are written: where both parse, agree
/// in year, month and zone, and the second names a later day, the second
/// denotes the later instant.
pub proof fn law_later_day_parses_later(a: Seq<u8>, b: Seq<u8>)
    requires
        timestamp_bytes(a) is Ok,
        timestamp_bytes(b) is Ok,
        year_field(a) == year_field(b),
        month_field(a) == month_field(b),
        zone_offset(zone_suffix(a)) == zone_offset(zone_suffix(b)),
        day_field(a) < day_field(b),
    ensures
        timestamp_bytes(a).unwrap().before(timestamp_bytes(b).unwrap()),
{
    let offset = zone_offset(zone_suffix(a)).unwrap();
    law_later_day_is_later(
        year_field(a),
        month_field(a),
        offset,
        day_field(a),
        hour_field(a),
        minute_field(a),
        second_field(a),
        fraction_nanos(a) as int,
        day_field(b),
        hour_field(b),
        minute_field(b),
        second_field(b),
        fraction_nanos(b) as int,
    );
}

/// A clock `hours` hours east of UTC is that many hours ahead: what it shows
/// at `h + hours` o'clock is the instant that UTC shows at `h` o'clock of the
/// same day, where both hours are on the clock.
pub proof fn law_offset_moves_the_hour(
    y: int,
    m: int,
    d: int,
    h: int,
    mi: int,
    s: int,
    n: int,
    hours: int,
)
    requires
        0 <= h <= 23,
        0 <= h + hours <= 23,
    ensures
        civil_instant(y, m, d, h + hours, mi, s, n, hours * 3600) == civil_instant(
            y,
            m,
            d,
            h,
            mi,
            s,
            n,
            0,
        ),
{
}

/// The day number of a new year, less that of 1 January 1970, is the count
/// of days year by year from 1970 on.
pub proof fn lemma_days_from_1970(y: int)
    requires
        1970 <= y,
    ensures
        days_before_year(y) - days_before_year(1970) == days_from_1970(y),
        days_before_year(1970) == 719527,
    decreases y,
{
    if y > 1970 {
        lemma_days_from_1970(y - 1);
        lemma_leap_step(y - 1);
    }
}

/// Midnight UTC on 1 January of every year from 1970 to 9999 is an instant in
/// range, and lies after the Unix epoch by exactly the days of the years in
/// between, each leap year counted with its 366 days.
pub proof fn law_new_year_since_epoch(y: int)
    requires
        1970 <= y < 10000,
    ensures
        civil_instant(y, 1, 1, 0, 0, 0, 0, 0) is Some,
        !civil_instant(y, 1, 1, 0, 0, 0, 0, 0).unwrap().before(unix_epoch()),
        civil_instant(y, 1, 1, 0, 0, 0, 0, 0).unwrap().total_nanos() - unix_epoch().total_nanos()
            == days_from_1970(y) * 86400 * 1_000_000_000,
{
    lemma_days_from_1970(y);
    lemma_days_before_year_bound(y);
    lemma_days_before_year_bound(y + 1);
    lemma_days_from_1970_positive(y);
    assert(day_number(y, 1, 1) == days_before_year(y));
    assert(valid_civil(y, 1, 1, 0, 0, 0, 0));
    assert(days_before_year(y) < 3652424) by {
        assert(days_before_year(y + 1) >= days_before_year(y) + 365);
    }
    let t = civil_instant(y, 1, 1, 0, 0, 0, 0, 0).unwrap();
    assert(t.sec == days_before_year(y) * 86400);
    assert(unix_epoch().sec == 719527 * 86400);
    assert(t.sec - unix_epoch().sec == days_from_1970(y) * 86400);
    assert(t.total_nanos() - unix_epoch().total_nanos() == (t.sec - unix_epoch().sec)
        * 1_000_000_000);
}

/// The count of days from 1970 on is never negative.
pub proof fn lemma_days_from_1970_positive(y: int)
    ensures
        days_from_1970(y) >= 0,
    decreases y,
{
    if y > 1970 {
        lemma_days_from_1970_positive(y - 1);
    }
}

} // verus!
