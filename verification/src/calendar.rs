//! Calendar dates of the proleptic Gregorian calendar.

use vstd::prelude::*;
use crate::error::{Component, ConversionError};

verus! {

/// Whether `year` is a leap year.
pub open spec fn is_leap_year(year: int) -> bool {
    year % 4 == 0 && (year % 100 != 0 || year % 400 == 0)
}

/// The number of days of `month` in `year`, and 0 where `month` is no month.
pub open spec fn days_in_month(year: int, month: int) -> int {
    if month == 2 {
        if is_leap_year(year) {
            29
        } else {
            28
        }
    } else if month == 4 || month == 6 || month == 9 || month == 11 {
        30
    } else if 1 <= month <= 12 {
        31
    } else {
        0
    }
}

/// The number of days of `year`.
pub open spec fn days_in_year(year: int) -> int {
    if is_leap_year(year) {
        366
    } else {
        365
    }
}

/// The number of days from the first day of 1970 to the first day of
/// `year`; below zero for the years before 1970.
pub open spec fn days_before_year(year: int) -> int
    decreases
            if year >= 1970 {
                year - 1970
            } else {
                1970 - year
            },
{
    if year > 1970 {
        days_before_year(year - 1) + days_in_year(year - 1)
    } else if year < 1970 {
        days_before_year(year + 1) - days_in_year(year)
    } else {
        0
    }
}

/// The number of days of `year` that lie before the first day of `month`.
pub open spec fn days_before_month(year: int, month: int) -> int
    decreases month,
{
    if month <= 1 {
        0
    } else {
        days_before_month(year, month - 1) + days_in_month(year, month - 1)
    }
}

/// Whether a date of the years -9999 to 9999 is `days` days from the first
/// day of 1970.
pub open spec fn days_in_range(days: int) -> bool {
    days_before_year(-9999) <= days < days_before_year(10_000)
}

/// A calendar date.
#[derive(Clone, Copy, Debug, PartialEq, Eq, Structural)]
pub struct Date {
    pub year: i32,
    /// 1 to 12.
    pub month: u8,
    /// 1 to the length of the month.
    pub day: u8,
}

impl Date {
    /// A date of the calendar: the month exists, and the day exists in it.
    pub open spec fn is_valid(self) -> bool {
        &&& 1 <= self.month <= 12
        &&& 1 <= self.day <= days_in_month(self.year as int, self.month as int)
    }

    /// The number of days from the first day of 1970 to this date.
    pub open spec fn days_since_epoch(self) -> int {
        days_before_year(self.year as int) + days_before_month(
            self.year as int,
            self.month as int,
        ) + self.day - 1
    }

    /// Decides whether this is a date of the calendar.
    pub fn valid(&self) -> (ok: bool)
        ensures
            ok == self.is_valid(),
    {
        1 <= self.month && self.month <= 12 && 1 <= self.day && self.day <= month_length(
            self.year,
            self.month,
        )
    }

    /// Counts the days from the first day of 1970 to this date.
    pub fn count_days_since_epoch(&self) -> (days: i64)
        ensures
            days == self.days_since_epoch(),
            -800_000_010_000 < days < 800_000_010_000,
    {
        proof {
            lemma_days_before_year(self.year as int);
        }
        count_days_before_year(self.year) + count_days_before_month(self.year, self.month)
            + self.day as i64 - 1
    }

    /// Finds the date that is `days` days from the first day of 1970, among
    /// the years -9999 to 9999. There is one such date, or none.
    pub fn from_days_since_epoch(days: i64) -> (found: Result<Date, ConversionError>)
        ensures
            match found {
                Ok(date) => days_in_range(days as int) && date.is_valid() && date.days_since_epoch()
                    == days && -9999 <= date.year <= 9999,
                Err(e) => !days_in_range(days as int) && e.component == Component::Year,
            },
    {
        proof {
            lemma_days_before_year(-9999);
            lemma_days_before_year(10_000);
        }
        if days < -4_371_587 || days >= 2_932_897 {
            return Err(ConversionError { component: Component::Year });
        }
        let since: i64 = days + 4_371_587;
        let mut year: i32 = -9999 + (since / 366) as i32;
        proof {
            lemma_days_before_year_grows(-9999, (since / 366) as nat);
            if year >= 10_000 {
                lemma_days_before_year_grows(10_000, (year - 10_000) as nat);
            }
        }
        while count_days_before_year(year + 1) <= days
            invariant
                -9999 <= year <= 9999,
                days_before_year(year as int) <= days < days_before_year(10_000),
            decreases days - days_before_year(year as int),
        {
            proof {
                lemma_days_before_year_grows(year as int, 1);
            }
            year = year + 1;
        }
        let day_of_year: i64 = days - count_days_before_year(year);
        let mut month: u8 = 1;
        proof {
            lemma_days_before_month(year as int, 1);
            lemma_days_before_year(year as int);
            lemma_days_before_year(year + 1);
        }
        while month < 12 && count_days_before_month(year, month + 1) <= day_of_year
            invariant
                1 <= month <= 12,
                days_before_month(year as int, month as int) <= day_of_year,
            decreases 12 - month,
        {
            month = month + 1;
        }
        proof {
            lemma_days_before_month(year as int, month as int);
        }
        let day: i64 = day_of_year - count_days_before_month(year, month) + 1;
        Ok(Date { year, month, day: day as u8 })
    }
}

/// Decides whether `year` is a leap year.
pub fn leap_year(year: i32) -> (leap: bool)
    ensures
        leap == is_leap_year(year as int),
{
    year % 4 == 0 && (year % 100 != 0 || year % 400 == 0)
}

/// Computes the number of days of `month` in `year`.
pub fn month_length(year: i32, month: u8) -> (days: u8)
    ensures
        days == days_in_month(year as int, month as int),
{
    if month == 2 {
        if leap_year(year) {
            29
        } else {
            28
        }
    } else if month == 4 || month == 6 || month == 9 || month == 11 {
        30
    } else if 1 <= month && month <= 12 {
        31
    } else {
        0
    }
}

/// Counts the days from the first day of 1970 to the first day of `year`.
pub fn count_days_before_year(year: i32) -> (days: i64)
    ensures
        days == days_before_year(year as int),
        -800_000_000_000 < days < 800_000_000_000,
{
    proof {
        lemma_days_before_year(year as int);
    }
    let before: i64 = year as i64 - 1;
    let leaps: i64 = floor_div(before, 4) - floor_div(before, 100) + floor_div(before, 400);
    365 * (year as i64 - 1970) + leaps - 477
}

/// Counts the days of `year` that lie before the first day of `month`.
pub fn count_days_before_month(year: i32, month: u8) -> (days: i64)
    ensures
        days == days_before_month(year as int, month as int),
        0 <= days < 8_000,
{
    let mut days: i64 = 0;
    let mut m: u8 = 1;
    while m < month
        invariant
            1 <= m,
            m <= month || m == 1,
            days == days_before_month(year as int, m as int),
            0 <= days <= 31 * (m - 1),
        decreases month - m,
    {
        days = days + month_length(year, m) as i64;
        m = m + 1;
    }
    assert(days_before_month(year as int, 0) == days_before_month(year as int, 1));
    days
}

/// `a / b` rounded towards minus infinity.
fn floor_div(a: i64, b: i64) -> (q: i64)
    requires
        0 < b <= 400,
        -0x1_0000_0000 <= a <= 0x1_0000_0000,
    ensures
        q == a as int / b as int,
{
    if a >= 0 {
        a / b
    } else {
        let up: i64 = (-a + b - 1) / b;
        assert((-up) as int == a as int / b as int) by (nonlinear_arith)
            requires
                a < 0,
                b > 0,
                up as int == (-(a as int) + b - 1) / (b as int),
        ;
        -up
    }
}

/// How many of the years from 1 up to, but without, `year` are leap years;
/// for a `year` below 1, minus the count of the leap years from `year` to 0.
pub open spec fn leap_years_before(year: int) -> int {
    (year - 1) / 4 - (year - 1) / 100 + (year - 1) / 400
}

/// The days before a year, counted in one step: 365 for each year since
/// 1970 and one more for each leap year among them.
pub proof fn lemma_days_before_year(year: int)
    ensures
        days_before_year(year) == 365 * (year - 1970) + leap_years_before(year)
            - leap_years_before(1970),
    decreases
            if year >= 1970 {
                year - 1970
            } else {
                1970 - year
            },
{
    if year > 1970 {
        lemma_days_before_year(year - 1);
    } else if year < 1970 {
        lemma_days_before_year(year + 1);
    }
}

/// No year has fewer than 365 days, nor more than 366.
pub proof fn lemma_days_before_year_grows(year: int, years: nat)
    ensures
        days_before_year(year) + 365 * years <= days_before_year(year + years)
            <= days_before_year(year) + 366 * years,
    decreases years,
{
    if years > 0 {
        lemma_days_before_year_grows(year, (years - 1) as nat);
        lemma_days_before_year(year + years);
        lemma_days_before_year(year + years - 1);
    }
}

/// The months of a year are as long as the year together, and the days
/// before a month are the more the later the month.
pub proof fn lemma_days_before_month(year: int, month: int)
    requires
        1 <= month <= 12,
    ensures
        days_before_month(year, 1) == 0,
        days_before_month(year, 13) == days_in_year(year),
        days_before_month(year, month + 1) == days_before_month(year, month) + days_in_month(
            year,
            month,
        ),
        28 * (month - 1) <= days_before_month(year, month) <= 31 * (month - 1),
        days_before_month(year, month + 1) <= days_in_year(year),
{
    reveal_with_fuel(days_before_month, 14);
}

/// The days before a month are no fewer than those before an earlier one.
pub proof fn lemma_days_before_month_grows(year: int, month: int, later: int)
    requires
        1 <= month <= later <= 13,
    ensures
        days_before_month(year, month) <= days_before_month(year, later),
    decreases later - month,
{
    if month < later {
        lemma_days_before_month_grows(year, month, later - 1);
    }
}

impl Date {
    /// A valid date lies in its year: on or after its first day and before
    /// the first day of the next year.
    pub proof fn lemma_in_its_year(self)
        requires
            self.is_valid(),
        ensures
            days_before_year(self.year as int) <= self.days_since_epoch() < days_before_year(
                self.year + 1,
            ),
    {
        lemma_days_before_month(self.year as int, self.month as int);
        lemma_days_before_year(self.year as int);
        lemma_days_before_year(self.year + 1);
    }

    /// Two valid dates as many days from the first day of 1970 are one date.
    pub proof fn lemma_days_tell_dates_apart(self, other: Date)
        requires
            self.is_valid(),
            other.is_valid(),
            self.days_since_epoch() == other.days_since_epoch(),
        ensures
            self == other,
    {
        self.lemma_in_its_year();
        other.lemma_in_its_year();
        if self.year < other.year {
            lemma_days_before_year_grows(self.year + 1, (other.year - self.year - 1) as nat);
        } else if other.year < self.year {
            lemma_days_before_year_grows(other.year + 1, (self.year - other.year - 1) as nat);
        } else {
            let year = self.year as int;
            lemma_days_before_month(year, self.month as int);
            lemma_days_before_month(year, other.month as int);
            if self.month < other.month {
                lemma_days_before_month_grows(year, self.month + 1, other.month as int);
            } else if other.month < self.month {
                lemma_days_before_month_grows(year, other.month + 1, self.month as int);
            }
        }
    }
}

} // verus!
