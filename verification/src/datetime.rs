//! Calendar timestamps at second resolution, local time, no offset.
//!
//! Dates are proper Gregorian calendar dates (leap years included) with a
//! four-digit year, the widest range the store's text encoding carries.

use vstd::prelude::*;

verus! {

/// A local-time timestamp: a valid Gregorian calendar date plus time of day.
#[derive(Clone, Copy, Debug, PartialEq, Eq, Structural)]
pub struct DateTime {
    pub year: u32,
    pub month: u32,
    pub day: u32,
    pub hour: u32,
    pub minute: u32,
    pub second: u32,
}

pub open spec fn is_leap_year(y: int) -> bool {
    y % 4 == 0 && (y % 100 != 0 || y % 400 == 0)
}

pub open spec fn days_in_month(y: int, m: int) -> int {
    if m == 2 {
        if is_leap_year(y) {
            29
        } else {
            28
        }
    } else if m == 4 || m == 6 || m == 9 || m == 11 {
        30
    } else {
        31
    }
}

impl DateTime {
    /// A well-formed timestamp: a real calendar date with a four-digit year
    /// (the store's text encoding is fixed-width) and a real time of day.
    pub open spec fn wf(self) -> bool {
        &&& 1 <= self.year <= 9999
        &&& 1 <= self.month <= 12
        &&& 1 <= self.day <= days_in_month(self.year as int, self.month as int)
        &&& self.hour < 24
        &&& self.minute < 60
        &&& self.second < 60
    }
}

/// The calendar day after `d`, time of day unchanged.
pub open spec fn succ_date(d: DateTime) -> DateTime {
    if d.day < days_in_month(d.year as int, d.month as int) {
        DateTime { day: (d.day + 1) as u32, ..d }
    } else if d.month < 12 {
        DateTime { month: (d.month + 1) as u32, day: 1, ..d }
    } else {
        DateTime { year: (d.year + 1) as u32, month: 1, day: 1, ..d }
    }
}

/// `d` moved forward by `n` calendar days, time of day unchanged.
pub open spec fn spec_plus_days(d: DateTime, n: nat) -> DateTime
    decreases n,
{
    if n == 0 {
        d
    } else {
        succ_date(spec_plus_days(d, (n - 1) as nat))
    }
}

/// The minute after `d`, seconds unchanged, carrying into the date at midnight.
pub open spec fn succ_minute(d: DateTime) -> DateTime {
    if d.minute < 59 {
        DateTime { minute: (d.minute + 1) as u32, ..d }
    } else if d.hour < 23 {
        DateTime { hour: (d.hour + 1) as u32, minute: 0, ..d }
    } else {
        DateTime { hour: 0, minute: 0, ..succ_date(d) }
    }
}

/// `d` moved forward by `n` minutes.
pub open spec fn spec_plus_minutes(d: DateTime, n: nat) -> DateTime
    decreases n,
{
    if n == 0 {
        d
    } else {
        succ_minute(spec_plus_minutes(d, (n - 1) as nat))
    }
}

/// Equality truncated to minute resolution: seconds are ignored.
pub open spec fn same_minute(a: DateTime, b: DateTime) -> bool {
    a.year == b.year && a.month == b.month && a.day == b.day && a.hour == b.hour && a.minute
        == b.minute
}

/// Equality truncated to day resolution.
pub open spec fn same_day(a: DateTime, b: DateTime) -> bool {
    a.year == b.year && a.month == b.month && a.day == b.day
}

/// Number of days in the given month of the given year.
pub fn days_in_month_of(year: u32, month: u32) -> (r: u32)
    requires
        1 <= month <= 12,
    ensures
        r as int == days_in_month(year as int, month as int),
{
    if month == 2 {
        if year % 4 == 0 && (year % 100 != 0 || year % 400 == 0) {
            29
        } else {
            28
        }
    } else if month == 4 || month == 6 || month == 9 || month == 11 {
        30
    } else {
        31
    }
}

impl DateTime {
    /// Builds a timestamp from raw parts, accepting exactly the well-formed ones.
    pub fn from_parts(year: i64, month: u32, day: u32, hour: u32, minute: u32, second: u32) -> (r:
        Option<DateTime>)
        ensures
            ({
                let ok = 1 <= year <= 9999 && 1 <= month <= 12 && 1 <= day && hour < 24 && minute
                    < 60 && second < 60 && day as int <= days_in_month(year as int, month as int);
                match r {
                    Some(d) => ok && d == (DateTime {
                        year: year as u32,
                        month,
                        day,
                        hour,
                        minute,
                        second,
                    }) && d.wf(),
                    None => !ok,
                }
            }),
    {
        if 1 <= year && year <= 9999 && 1 <= month && month <= 12 && hour < 24 && minute < 60
            && second < 60 {
            let y = year as u32;
            if 1 <= day && day <= days_in_month_of(y, month) {
                Some(DateTime { year: y, month, day, hour, minute, second })
            } else {
                None
            }
        } else {
            None
        }
    }

    /// Minute-resolution equality with another timestamp.
    pub fn eq_minute(&self, other: &DateTime) -> (r: bool)
        ensures
            r == same_minute(*self, *other),
    {
        self.year == other.year && self.month == other.month && self.day == other.day && self.hour
            == other.hour && self.minute == other.minute
    }

    /// Day-resolution equality with another timestamp.
    pub fn eq_day(&self, other: &DateTime) -> (r: bool)
        ensures
            r == same_day(*self, *other),
    {
        self.year == other.year && self.month == other.month && self.day == other.day
    }
}

/// The next calendar day, time of day unchanged.
pub fn next_day(d: &DateTime) -> (r: DateTime)
    requires
        d.wf(),
        !(d.year == 9999 && d.month == 12 && d.day == 31),
    ensures
        r == succ_date(*d),
        r.wf(),
{
    let dim = days_in_month_of(d.year, d.month);
    if d.day < dim {
        DateTime { day: d.day + 1, ..*d }
    } else if d.month < 12 {
        DateTime { month: d.month + 1, day: 1, ..*d }
    } else {
        DateTime { year: d.year + 1, month: 1, day: 1, ..*d }
    }
}

/// Moves `d` forward by `n` calendar days, time of day unchanged.
pub fn plus_days(d: &DateTime, n: u32) -> (r: DateTime)
    requires
        d.wf(),
        d.year < 9999,
        n <= 28,
    ensures
        r == spec_plus_days(*d, n as nat),
        r.wf(),
{
    let mut r = *d;
    let mut i: u32 = 0;
    while i < n
        invariant
            i <= n <= 28,
            d.wf(),
            d.year < 9999,
            r == spec_plus_days(*d, i as nat),
            r.wf(),
            r.year <= d.year || (r.year == d.year + 1 && r.month == 1 && r.day <= 1 + i),
        decreases n - i,
    {
        r = next_day(&r);
        i = i + 1;
    }
    r
}

/// The next minute, carrying into the date at midnight; seconds unchanged.
pub fn next_minute(d: &DateTime) -> (r: DateTime)
    requires
        d.wf(),
        !(d.year == 9999 && d.month == 12 && d.day == 31 && d.hour == 23 && d.minute == 59),
    ensures
        r == succ_minute(*d),
        r.wf(),
{
    if d.minute < 59 {
        DateTime { minute: d.minute + 1, ..*d }
    } else if d.hour < 23 {
        DateTime { hour: d.hour + 1, minute: 0, ..*d }
    } else {
        let nd = next_day(d);
        DateTime { hour: 0, minute: 0, ..nd }
    }
}

/// Moves `d` forward by `n` minutes.
pub fn plus_minutes(d: &DateTime, n: u32) -> (r: DateTime)
    requires
        d.wf(),
        d.year < 9999,
        n <= 59,
    ensures
        r == spec_plus_minutes(*d, n as nat),
        r.wf(),
{
    let mut r = *d;
    let mut i: u32 = 0;
    while i < n
        invariant
            i <= n <= 59,
            d.wf(),
            d.year < 9999,
            r == spec_plus_minutes(*d, i as nat),
            r.wf(),
            r.year <= d.year || (r.year == d.year + 1 && r.month == 1 && r.day == 1 && r.hour == 0
                && r.minute <= i),
        decreases n - i,
    {
        r = next_minute(&r);
        i = i + 1;
    }
    r
}

} // verus!
