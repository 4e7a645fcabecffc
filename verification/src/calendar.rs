//! Days of the calendar and the ISO week that holds each of them.

use crate::decimal::{
    decimal_int, decimal_nat, lemma_decimal_int_injective, lemma_decimal_nat_injective,
    signed_decimal, unsigned_decimal,
};
use chrono::Datelike;
use chrono::NaiveDate;
use vstd::prelude::*;

verus! {

/// The earliest year that chrono's `NaiveDate` holds.
pub const MIN_YEAR: i32 = -262143;

/// The latest year that chrono's `NaiveDate` holds.
pub const MAX_YEAR: i32 = 262142;

/// `year` has a 29th of February in the proleptic Gregorian calendar.
pub open spec fn is_leap_year(year: int) -> bool {
    year % 4 == 0 && (year % 100 != 0 || year % 400 == 0)
}

/// The number of days of `month` in `year`, for `month` from 1 to 12.
pub open spec fn days_in_month(year: int, month: int) -> int {
    if month == 2 {
        if is_leap_year(year) {
            29
        } else {
            28
        }
    } else if month == 4 || month == 6 || month == 9 || month == 11 {
        30
    } else {
        31
    }
}

/// `year`, `month` and `day` name a day that exists, in a year that chrono
/// holds.
pub open spec fn is_calendar_day(year: int, month: int, day: int) -> bool {
    &&& MIN_YEAR <= year <= MAX_YEAR
    &&& 1 <= month <= 12
    &&& 1 <= day <= days_in_month(year, month)
}

/// The year of the ISO 8601 week that holds the day `year`-`month`-`day`, as
/// chrono computes it. It can be the year before or after `year`.
pub uninterp spec fn iso_year(year: i32, month: u32, day: u32) -> i32;

/// The number of the ISO 8601 week that holds the day
/// `year`-`month`-`day`, as chrono computes it.
pub uninterp spec fn iso_week_number(year: i32, month: u32, day: u32) -> u32;

/// Calls chrono's `NaiveDate::from_ymd_opt` and, on the date, `Datelike::iso_week`
/// with `IsoWeek::year` and `IsoWeek::week`. Trusted: a date comes back
/// exactly for the days that exist within chrono's range of years; the
/// week's year and number depend on the day alone; the number is from 1 to
/// 53.
#[verifier::external_body]
fn chrono_iso_week(year: i32, month: u32, day: u32) -> (found: Option<(i32, u32)>)
    ensures
        found is Some <==> is_calendar_day(year as int, month as int, day as int),
        found is Some ==> found->Some_0.0 == iso_year(year, month, day),
        found is Some ==> found->Some_0.1 == iso_week_number(year, month, day),
        found is Some ==> 1 <= found->Some_0.1 <= 53,
{
    NaiveDate::from_ymd_opt(year, month, day).map(|date| date.iso_week()).map(
        |week| (week.year(), week.week()),
    )
}

/// A day given by year, month and day of the month.
#[derive(Debug, Clone, Copy, PartialEq, Eq, Structural)]
pub struct CalendarDay {
    pub year: i32,
    pub month: u32,
    pub day: u32,
}

impl CalendarDay {
    /// The day exists in the calendar.
    pub open spec fn exists_in_calendar(self) -> bool {
        is_calendar_day(self.year as int, self.month as int, self.day as int)
    }
}

/// The directory of one ISO week: the week's year and its number.
#[derive(Debug, Clone, Copy, PartialEq, Eq, Structural)]
pub struct WeekBucket {
    pub year: i32,
    pub week: u32,
}

impl WeekBucket {
    /// The bucket of the week that holds `day`.
    pub open spec fn of_day(day: CalendarDay) -> WeekBucket {
        WeekBucket {
            year: iso_year(day.year, day.month, day.day),
            week: iso_week_number(day.year, day.month, day.day),
        }
    }

    /// The name of the bucket's year directory: the year's numeral.
    pub open spec fn year_name(self) -> Seq<char> {
        decimal_int(self.year as int)
    }

    /// The name of the bucket's own directory: the week's numeral.
    pub open spec fn week_name(self) -> Seq<char> {
        decimal_nat(self.week as nat)
    }

    /// The bucket's path below the base directory: the year, then the week.
    pub open spec fn path(self) -> Seq<Seq<char>> {
        seq![self.year_name(), self.week_name()]
    }

    /// The bucket's path below the base directory, one text for each
    /// directory.
    pub fn components(&self) -> (parts: Vec<String>)
        ensures
            parts.deep_view() == self.path(),
    {
        let mut parts: Vec<String> = Vec::new();
        parts.push(signed_decimal(self.year));
        parts.push(unsigned_decimal(self.week));
        assert(parts.deep_view() =~= self.path());
        parts
    }

    /// The bucket of the week that holds `day`, for every day that exists;
    /// `None` for a day that does not.
    pub fn containing(day: CalendarDay) -> (bucket: Option<WeekBucket>)
        ensures
            bucket is Some <==> day.exists_in_calendar(),
            bucket is Some ==> bucket->Some_0 == WeekBucket::of_day(day),
            bucket is Some ==> 1 <= bucket->Some_0.week <= 53,
    {
        match chrono_iso_week(day.year, day.month, day.day) {
            Some((year, week)) => Some(WeekBucket { year, week }),
            None => None,
        }
    }
}

/// Two buckets with the same path are the same bucket.
pub proof fn lemma_bucket_path_injective(a: WeekBucket, b: WeekBucket)
    requires
        a.path() == b.path(),
    ensures
        a == b,
{
    assert(a.path()[0] == b.path()[0]);
    assert(a.path()[1] == b.path()[1]);
    lemma_decimal_int_injective(a.year as int, b.year as int);
    lemma_decimal_nat_injective(a.week as nat, b.week as nat);
}

} // verus!
