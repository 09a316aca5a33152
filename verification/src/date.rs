//! Calendar dates as plain numbers.

use vstd::prelude::*;

verus! {

/// A day of the proleptic Gregorian calendar.
#[derive(Clone, Copy, Debug, PartialEq, Eq, Structural)]
pub struct Date {
    pub year: i32,
    pub month: u8,
    pub day: u8,
}

/// Whether `year` has a 29th of February.
pub open spec fn is_leap(year: int) -> bool {
    year % 4 == 0 && (year % 100 != 0 || year % 400 == 0)
}

/// The number of days of `month` in `year`; 0 where `month` is no month.
pub open spec fn days_in_month(year: int, month: int) -> int {
    if month == 2 {
        if is_leap(year) {
            29
        } else {
            28
        }
    } else if month == 4 || month == 6 || month == 9 || month == 11 {
        30
    } else if 1 <= month <= 12 {
        31
    } else {
        0
    }
}

/// Whether the three numbers name a day between the years -9999 and 9999.
pub open spec fn is_date(year: int, month: int, day: int) -> bool {
    &&& -9999 <= year <= 9999
    &&& 1 <= month <= 12
    &&& 1 <= day <= days_in_month(year, month)
}

/// What the `time` crate reads from a string as an ISO 8601 date: year, month
/// and day, or `None` where it rejects the string.
pub uninterp spec fn iso8601_date(text: Seq<char>) -> Option<(i32, u8, u8)>;

/// Calls `time::Date::parse` with `Iso8601::DEFAULT` and takes the date apart
/// with `year`, `month` and `day`. Trusted: the result is a function of the
/// text alone, named `iso8601_date`; nothing is claimed of which texts pass.
#[verifier::external_body]
pub(crate) fn parse_iso8601(text: &str) -> (r: Option<(i32, u8, u8)>)
    ensures
        r == iso8601_date(text@),
{
    match time::Date::parse(text, &time::format_description::well_known::Iso8601::DEFAULT) {
        Ok(date) => Some((date.year(), u8::from(date.month()), date.day())),
        Err(_) => None,
    }
}

impl Date {
    /// Whether this is a day of the calendar, see [`is_date`].
    pub open spec fn valid(self) -> bool {
        is_date(self.year as int, self.month as int, self.day as int)
    }

    /// The months from year 0 to this date's month.
    pub open spec fn month_number(self) -> int {
        self.year * 12 + self.month - 1
    }

    /// The date with these numbers, if there is such a day.
    pub fn new(year: i32, month: u8, day: u8) -> (r: Option<Date>)
        ensures
            r == if is_date(year as int, month as int, day as int) {
                Some(Date { year, month, day })
            } else {
                None::<Date>
            },
    {
        if year < -9999 || year > 9999 || month < 1 || month > 12 || day < 1 {
            return None;
        }
        let leap: bool = year % 4 == 0 && (year % 100 != 0 || year % 400 == 0);
        let last: u8 = if month == 2 {
            if leap {
                29
            } else {
                28
            }
        } else if month == 4 || month == 6 || month == 9 || month == 11 {
            30
        } else {
            31
        };
        if day > last {
            return None;
        }
        Some(Date { year, month, day })
    }

    /// The date that a parser found, if its numbers name a day.
    pub fn from_parts(parts: Option<(i32, u8, u8)>) -> (r: Option<Date>)
        ensures
            r == date_of(parts),
    {
        match parts {
            Some((year, month, day)) => Date::new(year, month, day),
            None => None,
        }
    }

    /// Reads an ISO 8601 date as the `time` crate does.
    pub fn parse(text: &str) -> (r: Option<Date>)
        ensures
            r == date_of(iso8601_date(text@)),
            r matches Some(d) ==> d.valid(),
    {
        Date::from_parts(parse_iso8601(text))
    }

    /// See [`Date::month_number`].
    pub fn month_index(&self) -> (n: i32)
        requires
            self.valid(),
        ensures
            n == self.month_number(),
    {
        self.year * 12 + (self.month as i32) - 1
    }
}

/// The date made of the numbers a parser found.
pub open spec fn date_of(parts: Option<(i32, u8, u8)>) -> Option<Date> {
    match parts {
        Some((year, month, day)) => if is_date(year as int, month as int, day as int) {
            Some(Date { year, month, day })
        } else {
            None
        },
        None => None,
    }
}

} // verus!
