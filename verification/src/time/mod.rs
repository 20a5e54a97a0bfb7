use vstd::prelude::*;

pub mod parsing;

verus! {

/// The number of days in the given month of the given year of the proleptic Gregorian calendar,
/// or zero where the month is none of the twelve.
pub open spec fn days_in_month(year: int, month: int) -> int {
    if month == 2 {
        if is_leap_year(year) {
            29
        } else {
            28
        }
    } else if month == 4 || month == 6 || month == 9 || month == 11 {
        30
    } else if 1 <= month <= 12 {
        31
    } else {
        0
    }
}

/// Whether the year has a twenty-ninth of February.
pub open spec fn is_leap_year(year: int) -> bool {
    year % 4 == 0 && (year % 100 != 0 || year % 400 == 0)
}

/// Whether the three numbers name a day of the calendar.
pub open spec fn is_calendar_date(year: int, month: int, day: int) -> bool {
    1 <= month <= 12 && 1 <= day <= days_in_month(year, month)
}

/// Whether the four numbers name a time of day. The nanoseconds of a leap second go up to
/// two thousand million.
pub open spec fn is_time_of_day(hour: int, minute: int, second: int, nanosecond: int) -> bool {
    0 <= hour < 24 && 0 <= minute < 60 && 0 <= second < 60 && 0 <= nanosecond < 2_000_000_000
}

/// A calendar date.
#[derive(Clone, Copy, Debug, PartialEq, Eq, Hash, Structural)]
pub struct Date {
    pub year: i32,
    pub month: u32,
    pub day: u32,
}

/// A time of day.
#[derive(Clone, Copy, Debug, PartialEq, Eq, Hash, Structural)]
pub struct Time {
    pub hour: u32,
    pub minute: u32,
    pub second: u32,
    pub nanosecond: u32,
}

/// A date with a time of day, in no particular time zone.
#[derive(Clone, Copy, Debug, PartialEq, Eq, Hash, Structural)]
pub struct DateTime {
    pub date: Date,
    pub time: Time,
}

/// A date with a time of day, or a date alone.
#[derive(Clone, Copy, Debug, PartialEq, Eq, Hash, Structural)]
pub struct DateOptTime {
    pub date: Date,
    pub time: Option<Time>,
}

/// A span of time in whole seconds.
#[derive(Clone, Copy, Debug, PartialEq, Eq, Hash, Structural)]
pub struct Duration {
    pub seconds: i64,
}

/// A time zone of the time zone database, by its name.
#[derive(Debug, PartialEq, Eq, Hash)]
pub struct Timezone {
    pub name: String,
}

impl Clone for Timezone {
    fn clone(&self) -> (r: Timezone)
        ensures
            r.name@ == self.name@,
    {
        Timezone { name: self.name.clone() }
    }
}

impl Date {
    /// Whether the calendar has this day.
    pub open spec fn is_valid(self) -> bool {
        is_calendar_date(self.year as int, self.month as int, self.day as int)
    }

    /// Whether the year has a twenty-ninth of February.
    pub fn has_leap_day(year: i32) -> (r: bool)
        ensures
            r == is_leap_year(year as int),
    {
        year % 4 == 0 && (year % 100 != 0 || year % 400 == 0)
    }

    /// The date of the given year, month and day, where the calendar has such a day.
    pub fn new(year: i32, month: u32, day: u32) -> (r: Option<Date>)
        ensures
            r == if is_calendar_date(year as int, month as int, day as int) {
                Some(Date { year, month, day })
            } else {
                None
            },
            r is Some ==> r->0.is_valid(),
    {
        if month < 1 || month > 12 || day < 1 {
            return None;
        }
        let days: u32 = if month == 2 {
            if Date::has_leap_day(year) {
                29
            } else {
                28
            }
        } else if month == 4 || month == 6 || month == 9 || month == 11 {
            30
        } else {
            31
        };
        if day <= days {
            Some(Date { year, month, day })
        } else {
            None
        }
    }
}

impl Time {
    /// Whether the day has this time.
    pub open spec fn is_valid(self) -> bool {
        is_time_of_day(
            self.hour as int,
            self.minute as int,
            self.second as int,
            self.nanosecond as int,
        )
    }

    /// The time of the given hour, minute, second and nanosecond, where the day has such a time.
    pub fn new(hour: u32, minute: u32, second: u32, nanosecond: u32) -> (r: Option<Time>)
        ensures
            r == if is_time_of_day(hour as int, minute as int, second as int, nanosecond as int) {
                Some(Time { hour, minute, second, nanosecond })
            } else {
                None
            },
            r is Some ==> r->0.is_valid(),
    {
        if hour < 24 && minute < 60 && second < 60 && nanosecond < 2_000_000_000 {
            Some(Time { hour, minute, second, nanosecond })
        } else {
            None
        }
    }
}

impl DateTime {
    /// Whether the calendar has the day and the day has the time.
    pub open spec fn is_valid(self) -> bool {
        self.date.is_valid() && self.time.is_valid()
    }
}

} // verus!
