//! Gregorian calendar arithmetic on seconds counted from 1970-01-01T00:00:00Z.
//!
//! The mathematical model is [`CivilTime`]: a calendar date and a time of day
//! with unbounded integer fields. Its `unix_seconds` is the plain definition
//! of epoch seconds (whole years, then whole months, then days, then the time
//! of day), and every conversion in this module is stated against it.

use vstd::prelude::*;

verus! {

/// The year in which the epoch lies.
pub const EPOCH_YEAR: i64 = 1970;

/// Seconds in one civil day; leap seconds are not counted.
pub const SECONDS_PER_DAY: u64 = 86400;

/// The Gregorian leap-year rule: every fourth year, except centuries that
/// are not multiples of 400.
pub open spec fn is_leap_year(y: int) -> bool {
    (y % 4 == 0 && y % 100 != 0) || y % 400 == 0
}

/// Number of days in year `y`.
pub open spec fn days_in_year(y: int) -> int {
    if is_leap_year(y) {
        366
    } else {
        365
    }
}

/// Number of days in month `m` (1 = January) of year `y`.
pub open spec fn days_in_month(y: int, m: int) -> int {
    if m == 2 {
        if is_leap_year(y) {
            29
        } else {
            28
        }
    } else if m == 4 || m == 6 || m == 9 || m == 11 {
        30
    } else {
        31
    }
}

/// Days from 1970-01-01 to the first day of year `y`: the lengths of the
/// years `1970 .. y` added up.
pub open spec fn days_before_year(y: int) -> int
    decreases y - 1970,
{
    if y <= 1970 {
        0
    } else {
        days_before_year(y - 1) + days_in_year(y - 1)
    }
}

/// Days from the first day of year `y` to the first day of its month `m`:
/// the lengths of the months `1 .. m` added up.
pub open spec fn days_before_month(y: int, m: int) -> int
    decreases m,
{
    if m <= 1 {
        0
    } else {
        days_before_month(y, m - 1) + days_in_month(y, m - 1)
    }
}

/// A calendar date with a time of day, in UTC.
pub ghost struct CivilTime {
    pub year: int,
    pub month: int,
    pub day: int,
    pub hour: int,
    pub minute: int,
    pub second: int,
}

impl CivilTime {
    /// The fields name a real instant at or after the epoch.
    pub open spec fn wf(self) -> bool {
        &&& 1970 <= self.year
        &&& 1 <= self.month <= 12
        &&& 1 <= self.day <= days_in_month(self.year, self.month)
        &&& 0 <= self.hour < 24
        &&& 0 <= self.minute < 60
        &&& 0 <= self.second < 60
    }

    /// Whole days from the epoch to this date.
    pub open spec fn day_number(self) -> int {
        days_before_year(self.year) + days_before_month(self.year, self.month) + (self.day - 1)
    }

    /// Seconds from midnight to this time of day.
    pub open spec fn second_of_day(self) -> int {
        self.hour * 3600 + self.minute * 60 + self.second
    }

    /// Seconds from the epoch to this instant.
    pub open spec fn unix_seconds(self) -> int {
        self.day_number() * 86400 + self.second_of_day()
    }
}

/// The calendar reading of the instant `t` seconds after the epoch.
///
/// For `t >= 0` there is exactly one well-formed reading, as
/// [`lemma_civil_time_exists`] and [`lemma_civil_time_unique`] show.
pub open spec fn civil_of_seconds(t: int) -> CivilTime {
    choose|c: CivilTime| c.wf() && c.unix_seconds() == t
}

/// A calendar date with a time of day, in UTC, as machine integers.
#[derive(Clone, Copy, Debug, PartialEq, Eq)]
pub struct DateTime {
    pub year: i64,
    pub month: u8,
    pub day: u8,
    pub hour: u8,
    pub minute: u8,
    pub second: u8,
}

impl View for DateTime {
    type V = CivilTime;

    open spec fn view(&self) -> CivilTime {
        CivilTime {
            year: self.year as int,
            month: self.month as int,
            day: self.day as int,
            hour: self.hour as int,
            minute: self.minute as int,
            second: self.second as int,
        }
    }
}

/// Every year has at least 365 days, so the day count of a year's start
/// grows with the year.
pub proof fn lemma_days_before_year_grows(a: int, b: int)
    requires
        1970 <= a <= b,
    ensures
        days_before_year(a) + 365 * (b - a) <= days_before_year(b),
        0 <= days_before_year(a),
    decreases b - 1970,
{
    if a < b {
        lemma_days_before_year_grows(a, b - 1);
    } else if 1970 < a {
        lemma_days_before_year_grows(a - 1, a - 1);
    }
}

/// The cumulative month table: where each month starts within its year.
pub proof fn lemma_days_before_month_table(y: int)
    ensures
        days_before_month(y, 1) == 0,
        days_before_month(y, 2) == 31,
        days_before_month(y, 3) == 31 + days_in_month(y, 2),
        days_before_month(y, 4) == 62 + days_in_month(y, 2),
        days_before_month(y, 5) == 92 + days_in_month(y, 2),
        days_before_month(y, 6) == 123 + days_in_month(y, 2),
        days_before_month(y, 7) == 153 + days_in_month(y, 2),
        days_before_month(y, 8) == 184 + days_in_month(y, 2),
        days_before_month(y, 9) == 215 + days_in_month(y, 2),
        days_before_month(y, 10) == 245 + days_in_month(y, 2),
        days_before_month(y, 11) == 276 + days_in_month(y, 2),
        days_before_month(y, 12) == 306 + days_in_month(y, 2),
        days_before_month(y, 13) == days_in_year(y),
{
    reveal_with_fuel(days_before_month, 14);
}

/// A date lies inside its own year: its day number is at least the year's
/// first day and less than the next year's.
pub proof fn lemma_day_number_within_year(c: CivilTime)
    requires
        c.wf(),
    ensures
        days_before_year(c.year) <= c.day_number() < days_before_year(c.year + 1),
        days_before_month(c.year, c.month) <= c.day_number() - days_before_year(c.year)
            < days_before_month(c.year, c.month + 1),
{
    lemma_days_before_month_table(c.year);
}

/// Two well-formed readings of the same instant are the same reading.
pub proof fn lemma_civil_time_unique(a: CivilTime, b: CivilTime)
    requires
        a.wf(),
        b.wf(),
        a.unix_seconds() == b.unix_seconds(),
    ensures
        a == b,
{
    assert(a.day_number() == b.day_number() && a.second_of_day() == b.second_of_day());
    lemma_day_number_within_year(a);
    lemma_day_number_within_year(b);
    if a.year < b.year {
        lemma_days_before_year_grows(a.year + 1, b.year);
    }
    if b.year < a.year {
        lemma_days_before_year_grows(b.year + 1, a.year);
    }
    assert(a.year == b.year);
    lemma_days_before_month_table(a.year);
    assert(a.month == b.month);
}

/// A well-formed reading is the calendar reading of its own instant.
pub proof fn lemma_civil_of_seconds(c: CivilTime)
    requires
        c.wf(),
    ensures
        civil_of_seconds(c.unix_seconds()) == c,
{
    let found = civil_of_seconds(c.unix_seconds());
    assert(found.wf() && found.unix_seconds() == c.unix_seconds());
    lemma_civil_time_unique(found, c);
}

/// Every day at or after the epoch lies in some year from 1970 on.
pub proof fn lemma_year_of_day(d: int) -> (y: int)
    requires
        0 <= d,
    ensures
        1970 <= y,
        days_before_year(y) <= d < days_before_year(y + 1),
    decreases d,
{
    if d == 0 {
        1970
    } else {
        let y = lemma_year_of_day(d - 1);
        if d < days_before_year(y + 1) {
            y
        } else {
            y + 1
        }
    }
}

/// Every instant at or after the epoch has a well-formed calendar reading,
/// and `civil_of_seconds` is that reading.
pub proof fn lemma_civil_time_exists(t: int) -> (c: CivilTime)
    requires
        0 <= t,
    ensures
        c.wf(),
        c.unix_seconds() == t,
        civil_of_seconds(t) == c,
{
    let d = t / 86400;
    let s = t % 86400;
    let y = lemma_year_of_day(d);
    let r = d - days_before_year(y);
    lemma_days_before_month_table(y);
    let m: int = if r < days_before_month(y, 2) {
        1
    } else if r < days_before_month(y, 3) {
        2
    } else if r < days_before_month(y, 4) {
        3
    } else if r < days_before_month(y, 5) {
        4
    } else if r < days_before_month(y, 6) {
        5
    } else if r < days_before_month(y, 7) {
        6
    } else if r < days_before_month(y, 8) {
        7
    } else if r < days_before_month(y, 9) {
        8
    } else if r < days_before_month(y, 10) {
        9
    } else if r < days_before_month(y, 11) {
        10
    } else if r < days_before_month(y, 12) {
        11
    } else {
        12
    };
    let c = CivilTime {
        year: y,
        month: m,
        day: r - days_before_month(y, m) + 1,
        hour: s / 3600,
        minute: (s % 3600) / 60,
        second: s % 60,
    };
    lemma_civil_of_seconds(c);
    c
}

/// Whether `y` is a leap year of the Gregorian calendar.
pub fn is_leap(y: i64) -> (leap: bool)
    ensures
        leap == is_leap_year(y as int),
{
    (y % 4 == 0 && y % 100 != 0) || y % 400 == 0
}

/// Length of year `y` in days.
pub fn year_length(y: i64) -> (days: i64)
    ensures
        days == days_in_year(y as int),
{
    if is_leap(y) {
        366
    } else {
        365
    }
}

/// The twelve month lengths of year `y`, January first.
pub fn month_lengths(y: i64) -> (table: [i64; 12])
    ensures
        forall|i: int| 0 <= i < 12 ==> table[i] == #[trigger] days_in_month(y as int, i + 1),
{
    if is_leap(y) {
        [31, 29, 31, 30, 31, 30, 31, 31, 30, 31, 30, 31]
    } else {
        [31, 28, 31, 30, 31, 30, 31, 31, 30, 31, 30, 31]
    }
}

impl DateTime {
    /// Converts seconds since the epoch to a calendar date and a time of day.
    ///
    /// The year is found by taking whole years off the day count, starting
    /// at 1970; the month by taking whole months off what is left.
    pub fn from_unix_seconds(now: u64) -> (dt: DateTime)
        ensures
            dt@.wf(),
            dt@.unix_seconds() == now,
            dt@ == civil_of_seconds(now as int),
    {
        let days: u64 = now / SECONDS_PER_DAY;
        let day_secs: u64 = now % SECONDS_PER_DAY;
        let hours: u64 = day_secs / 3600;
        let minutes: u64 = (day_secs % 3600) / 60;
        let seconds: u64 = day_secs % 60;

        let mut y: i64 = EPOCH_YEAR;
        let mut remaining_days: i64 = days as i64;
        while remaining_days >= year_length(y)
            invariant
                1970 <= y,
                0 <= remaining_days,
                days_before_year(y as int) + remaining_days == days,
                365 * (y - 1970) <= days - remaining_days,
                days <= u64::MAX / 86400,
            decreases remaining_days,
        {
            remaining_days -= year_length(y);
            y += 1;
        }

        let month_days: [i64; 12] = month_lengths(y);
        let ghost day_of_year: int = remaining_days as int;
        proof {
            lemma_days_before_month_table(y as int);
        }
        let mut m: usize = 0;
        while remaining_days >= month_days[m]
            invariant
                0 <= m < 12,
                0 <= remaining_days,
                days_before_month(y as int, m + 1) + remaining_days == day_of_year,
                day_of_year < days_before_month(y as int, 13),
                forall|i: int|
                    0 <= i < 12 ==> month_days[i] == #[trigger] days_in_month(y as int, i + 1),
            decreases 12 - m,
        {
            proof {
                lemma_days_before_month_table(y as int);
            }
            remaining_days -= month_days[m];
            m += 1;
        }

        let dt = DateTime {
            year: y,
            month: (m + 1) as u8,
            day: (remaining_days + 1) as u8,
            hour: hours as u8,
            minute: minutes as u8,
            second: seconds as u8,
        };
        proof {
            lemma_civil_of_seconds(dt@);
        }
        dt
    }
}

} // verus!
