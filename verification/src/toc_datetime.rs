//! The seven-field broken-down timestamp stored in the manifest header.
//!
//! The in-memory representation is always the seven raw integers read
//! from the file, so that an invalid date still round-trips verbatim.
//! Conversion to a civil date-time is used only for display and for the
//! JSON projection.

use vstd::prelude::*;

use crate::toc_error::TocError;

verus! {

/// Broken-down timestamp: seconds, minutes, hours, day of month, month,
/// year minus 1900, and a daylight-saving flag, all as raw integers.
#[derive(Debug, Clone, Copy, PartialEq, Eq, Structural)]
pub struct TocDateTime {
    pub second: i32,
    pub minute: i32,
    pub hour: i32,
    pub day: i32,
    pub month: i32,
    pub year: i32,
    pub is_dst: i32,
}

/// A civil date-time with a calendar-valid date and time of day, in
/// years 0 through 9999.
#[derive(Debug, Clone, Copy, PartialEq, Eq, Structural)]
pub struct CivilDateTime {
    pub year: i32,
    pub month: i32,
    pub day: i32,
    pub hour: i32,
    pub minute: i32,
    pub second: i32,
}

/// Whether `year` (as a civil year number) is a leap year.
pub open spec fn spec_is_leap_year(year: int) -> bool {
    year % 4 == 0 && (year % 100 != 0 || year % 400 == 0)
}

/// Days in a month of a civil year.
pub open spec fn spec_days_in_month(year: int, month: int) -> int {
    if month == 2 {
        if spec_is_leap_year(year) {
            29
        } else {
            28
        }
    } else if month == 4 || month == 6 || month == 9 || month == 11 {
        30
    } else {
        31
    }
}

/// Whether a civil date-time is valid: date on the calendar, time of
/// day in range, year representable with four digits.
pub open spec fn spec_civil_valid(c: CivilDateTime) -> bool {
    &&& 0 <= c.year <= 9999
    &&& 1 <= c.month <= 12
    &&& 1 <= c.day <= spec_days_in_month(c.year as int, c.month as int)
    &&& 0 <= c.hour <= 23
    &&& 0 <= c.minute <= 59
    &&& 0 <= c.second <= 59
}

/// The civil date-time that a broken-down timestamp denotes.
pub open spec fn spec_civil_of(t: TocDateTime) -> CivilDateTime {
    CivilDateTime {
        year: (t.year + 1900) as i32,
        month: t.month,
        day: t.day,
        hour: t.hour,
        minute: t.minute,
        second: t.second,
    }
}

/// Whether a broken-down timestamp denotes a valid civil date-time.
pub open spec fn spec_timestamp_valid(t: TocDateTime) -> bool {
    &&& t.year + 1900 <= i32::MAX
    &&& spec_civil_valid(spec_civil_of(t))
}

pub fn is_leap_year(year: i32) -> (r: bool)
    ensures
        r == spec_is_leap_year(year as int),
{
    year % 4 == 0 && (year % 100 != 0 || year % 400 == 0)
}

pub fn days_in_month(year: i32, month: i32) -> (r: i32)
    ensures
        r == spec_days_in_month(year as int, month as int),
{
    if month == 2 {
        if is_leap_year(year) {
            29
        } else {
            28
        }
    } else if month == 4 || month == 6 || month == 9 || month == 11 {
        30
    } else {
        31
    }
}

impl TocDateTime {
    /// Builds a timestamp from its seven raw fields.
    pub fn new(second: i32, minute: i32, hour: i32, day: i32, month: i32, year: i32, is_dst: i32)
        -> (r: Self)
        ensures
            r == (TocDateTime { second, minute, hour, day, month, year, is_dst }),
    {
        Self { second, minute, hour, day, month, year, is_dst }
    }

    /// Builds the timestamp denoting a civil date-time, with the given
    /// daylight-saving flag.
    pub fn from_civil(c: &CivilDateTime, is_dst: bool) -> (r: Self)
        requires
            c.year >= i32::MIN + 1900,
        ensures
            r.second == c.second,
            r.minute == c.minute,
            r.hour == c.hour,
            r.day == c.day,
            r.month == c.month,
            r.year == c.year - 1900,
            r.is_dst == if is_dst {
                1int
            } else {
                0int
            },
    {
        Self {
            second: c.second,
            minute: c.minute,
            hour: c.hour,
            day: c.day,
            month: c.month,
            year: c.year - 1900,
            is_dst: if is_dst {
                1
            } else {
                0
            },
        }
    }

    /// The civil date-time this timestamp denotes together with the
    /// daylight-saving flag, or an error when the date or time is not
    /// valid.
    pub fn to_civil(&self) -> (r: Result<(CivilDateTime, bool), TocError>)
        ensures
            match r {
                Ok((c, dst)) => {
                    &&& spec_timestamp_valid(*self)
                    &&& c == spec_civil_of(*self)
                    &&& dst == (self.is_dst > 0)
                },
                Err(_) => !spec_timestamp_valid(*self),
            },
    {
        if self.year > i32::MAX - 1900 {
            return Err(TocError::from_str("Invalid date"));
        }
        let year: i32 = self.year + 1900;
        if year < 0 || year > 9999 {
            return Err(TocError::from_str("Invalid date"));
        }
        if self.month < 1 || self.month > 12 {
            return Err(TocError::from_str("Invalid date"));
        }
        if self.day < 1 || self.day > days_in_month(year, self.month) {
            return Err(TocError::from_str("Invalid date"));
        }
        if self.hour < 0 || self.hour > 23 || self.minute < 0 || self.minute > 59 || self.second
            < 0 || self.second > 59 {
            return Err(TocError::from_str("Invalid time"));
        }
        let c = CivilDateTime {
            year,
            month: self.month,
            day: self.day,
            hour: self.hour,
            minute: self.minute,
            second: self.second,
        };
        Ok((c, self.is_dst > 0))
    }
}

} // verus!
