//! Calendar arithmetic for HTTP dates.
//!
//! An `HttpDate` is a timezone-agnostic instant with second resolution,
//! stored as proleptic-Gregorian calendar fields. Ordering between two
//! instants goes through `unix_timestamp`, the signed count of seconds
//! since 1970-01-01 00:00:00.

use vstd::prelude::*;

verus! {

/// A parsed HTTP date: calendar fields at second resolution.
#[derive(Clone, Copy, PartialEq, Eq, Structural, Debug)]
pub struct HttpDate {
    pub year: i32,
    pub month: u8,
    pub day: u8,
    pub hour: u8,
    pub minute: u8,
    pub second: u8,
}

/// Leap years of the proleptic Gregorian calendar, astronomical numbering.
pub open spec fn leap_year(y: int) -> bool {
    y % 4 == 0 && (y % 100 != 0 || y % 400 == 0)
}

pub open spec fn days_in_year_of(y: int) -> int {
    if leap_year(y) { 366 } else { 365 }
}

pub open spec fn days_in_month_of(y: int, m: int) -> int {
    if m == 2 {
        if leap_year(y) { 29 } else { 28 }
    } else if m == 4 || m == 6 || m == 9 || m == 11 {
        30
    } else {
        31
    }
}

/// Days from 1970-01-01 to the first day of year `y` (negative before 1970).
pub open spec fn days_to_year(y: int) -> int
    decreases (if y >= 1970 { y - 1970 } else { 1970 - y })
{
    if y > 1970 {
        days_to_year(y - 1) + days_in_year_of(y - 1)
    } else if y < 1970 {
        days_to_year(y + 1) - days_in_year_of(y)
    } else {
        0
    }
}

/// Days from the first day of year `y` to the first day of its month `m`.
pub open spec fn days_before_month(y: int, m: int) -> int
    decreases m
{
    if m <= 1 { 0 } else { days_before_month(y, m - 1) + days_in_month_of(y, m - 1) }
}

/// The calendar fields lie in range and name a real day.
pub open spec fn date_valid(d: HttpDate) -> bool {
    &&& -100000 <= d.year <= 100000
    &&& 1 <= d.month <= 12
    &&& 1 <= d.day <= days_in_month_of(d.year as int, d.month as int)
    &&& d.hour <= 23
    &&& d.minute <= 59
    &&& d.second <= 59
}

/// Signed days since 1970-01-01.
pub open spec fn epoch_days_of(d: HttpDate) -> int {
    days_to_year(d.year as int) + days_before_month(d.year as int, d.month as int) + d.day - 1
}

/// Signed seconds since 1970-01-01 00:00:00.
pub open spec fn epoch_seconds_of(d: HttpDate) -> int {
    epoch_days_of(d) * 86400 + d.hour * 3600 + d.minute * 60 + d.second
}

/// Leap-year test. Shifting by 100400 (a multiple of 400) keeps the
/// computation non-negative for every year this crate accepts.
pub fn is_leap_year(year: i32) -> (r: bool)
    requires
        -100401 <= year <= 100401,
    ensures
        r == leap_year(year as int),
{
    let shifted: i64 = year as i64 + 100400;
    proof {
        vstd::arithmetic::div_mod::lemma_mod_multiples_vanish(25100, year as int, 4);
        vstd::arithmetic::div_mod::lemma_mod_multiples_vanish(1004, year as int, 100);
        vstd::arithmetic::div_mod::lemma_mod_multiples_vanish(251, year as int, 400);
    }
    shifted % 4 == 0 && (shifted % 100 != 0 || shifted % 400 == 0)
}

pub fn days_in_year(year: i32) -> (r: u16)
    requires
        -100401 <= year <= 100401,
    ensures
        r as int == days_in_year_of(year as int),
{
    if is_leap_year(year) { 366 } else { 365 }
}

pub fn days_in_month(year: i32, month: u8) -> (r: u8)
    requires
        -100401 <= year <= 100401,
        1 <= month <= 12,
    ensures
        r as int == days_in_month_of(year as int, month as int),
{
    if month == 2 {
        if is_leap_year(year) { 29 } else { 28 }
    } else if month == 4 || month == 6 || month == 9 || month == 11 {
        30
    } else {
        31
    }
}

impl HttpDate {
    /// Signed days since 1970-01-01.
    pub fn epoch_days(&self) -> (r: i64)
        requires
            date_valid(*self),
        ensures
            r as int == epoch_days_of(*self),
            -37400000 <= r <= 36000000,
    {
        let mut days: i64 = 0;
        let mut y: i32 = 1970;
        if self.year >= 1970 {
            while y < self.year
                invariant
                    1970 <= y <= self.year,
                    self.year <= 100000,
                    days == days_to_year(y as int),
                    0 <= days <= 366 * (y - 1970),
                decreases self.year - y,
            {
                days = days + days_in_year(y) as i64;
                y = y + 1;
            }
        } else {
            while y > self.year
                invariant
                    self.year <= y <= 1970,
                    -100000 <= self.year,
                    days == days_to_year(y as int),
                    -366 * (1970 - y) <= days <= 0,
                decreases y - self.year,
            {
                y = y - 1;
                days = days - days_in_year(y) as i64;
            }
        }
        let mut m: u8 = 1;
        while m < self.month
            invariant
                1 <= m <= self.month,
                date_valid(*self),
                y == self.year,
                days == days_to_year(y as int) + days_before_month(y as int, m as int),
                -37350000 <= days_to_year(y as int) <= 35900000,
                0 <= days_before_month(y as int, m as int) <= 31 * (m - 1),
            decreases self.month - m,
        {
            days = days + days_in_month(self.year, m) as i64;
            m = m + 1;
        }
        days + self.day as i64 - 1
    }

    /// Signed seconds since 1970-01-01 00:00:00, the value two HTTP dates
    /// are compared by.
    pub fn unix_timestamp(&self) -> (r: i64)
        requires
            date_valid(*self),
        ensures
            r as int == epoch_seconds_of(*self),
    {
        let days = self.epoch_days();
        days * 86400 + self.hour as i64 * 3600 + self.minute as i64 * 60 + self.second as i64
    }

    /// The calendar fields of a non-negative timestamp up to the end of
    /// year 9999.
    pub fn from_unix_timestamp(secs: i64) -> (r: HttpDate)
        requires
            0 <= secs < 253402300800,
        ensures
            date_valid(r),
            epoch_seconds_of(r) == secs,
    {
        let days: i64 = secs / 86400;
        let rem: i64 = secs % 86400;
        let hour: i64 = rem / 3600;
        let minute: i64 = (rem % 3600) / 60;
        let second: i64 = rem % 60;

        let mut y: i32 = 1970;
        let mut d: i64 = days;
        proof {
            lemma_days_to_year_lower(1970);
        }
        while d >= days_in_year(y) as i64
            invariant
                1970 <= y <= 10040,
                0 <= d,
                days_to_year(y as int) + d == days,
                days < 2932897,
                365 * (y - 1970) <= days_to_year(y as int),
            decreases d,
        {
            d = d - days_in_year(y) as i64;
            y = y + 1;
            proof {
                lemma_days_to_year_lower(y as int);
            }
        }

        let mut m: u8 = 1;
        proof {
            assert(days_before_month(y as int, 13) == days_in_year_of(y as int)) by {
                reveal_with_fuel(days_before_month, 14);
            }
        }
        while m < 12 && d >= days_in_month(y, m) as i64
            invariant
                1970 <= y <= 10040,
                1 <= m <= 12,
                0 <= d,
                days_before_month(y as int, m as int) + d == days - days_to_year(y as int),
                days - days_to_year(y as int) < days_in_year_of(y as int),
                days_before_month(y as int, 13) == days_in_year_of(y as int),
            decreases 12 - m,
        {
            d = d - days_in_month(y, m) as i64;
            m = m + 1;
        }
        proof {
            if m == 12 {
                assert(days_before_month(y as int, 13)
                    == days_before_month(y as int, 12) + days_in_month_of(y as int, 12));
            }
        }

        let r = HttpDate {
            year: y,
            month: m,
            day: (d + 1) as u8,
            hour: hour as u8,
            minute: minute as u8,
            second: second as u8,
        };
        proof {
            vstd::arithmetic::div_mod::lemma_fundamental_div_mod(secs as int, 86400);
            vstd::arithmetic::div_mod::lemma_fundamental_div_mod(rem as int, 3600);
            vstd::arithmetic::div_mod::lemma_fundamental_div_mod(rem as int % 3600, 60);
        }
        r
    }
}

/// Between 1970 and a later year lie at least 365 days a year.
proof fn lemma_days_to_year_lower(y: int)
    requires
        y >= 1970,
    ensures
        365 * (y - 1970) <= days_to_year(y),
    decreases y - 1970,
{
    if y > 1970 {
        lemma_days_to_year_lower(y - 1);
    }
}

} // verus!
