use chrono::{Datelike, Timelike};
use vstd::prelude::*;

use super::{
    is_calendar_date, is_time_of_day, Date, DateOptTime, DateTime, Duration, Time, Timezone,
};
use crate::types::{
    all_digits, chars_of, decimal_digit, digits_value, is_decimal_digit, is_digit,
    lemma_pow10_monotonic, lemma_pow10_values, pow10,
};

verus! {

/// Why a text is no date, time or duration.
#[derive(Clone, Copy, Debug, PartialEq, Eq, Structural)]
pub enum TimeError {
    InvalidDate,
    InvalidTime,
    InvalidDuration,
    InvalidTimeZone,
    FromFuture,
}

/// The year, month and day that `chrono::NaiveDate::parse_from_str` reads from `text` by
/// `format`, or `None` where it reports an error.
pub uninterp spec fn chrono_date(text: Seq<char>, format: Seq<char>) -> Option<(int, int, int)>;

/// The hour, minute, second and nanosecond that `chrono::NaiveTime::parse_from_str` reads from
/// `text` by `format`, or `None` where it reports an error.
pub uninterp spec fn chrono_time(text: Seq<char>, format: Seq<char>) -> Option<(int, int, int, int)>;

/// The date and time that `chrono::NaiveDateTime::parse_from_str` reads from `text` by `format`,
/// or `None` where it reports an error.
pub uninterp spec fn chrono_date_time(text: Seq<char>, format: Seq<char>) -> Option<
    ((int, int, int), (int, int, int, int)),
>;

pub open spec fn date_parts(parts: Option<(i32, u32, u32)>) -> Option<(int, int, int)> {
    match parts {
        Some((year, month, day)) => Some((year as int, month as int, day as int)),
        None => None,
    }
}

pub open spec fn time_parts(parts: Option<(u32, u32, u32, u32)>) -> Option<(int, int, int, int)> {
    match parts {
        Some((hour, minute, second, nanosecond)) => Some(
            (hour as int, minute as int, second as int, nanosecond as int),
        ),
        None => None,
    }
}

pub open spec fn date_time_parts(parts: Option<((i32, u32, u32), (u32, u32, u32, u32))>) -> Option<
    ((int, int, int), (int, int, int, int)),
> {
    match parts {
        Some((date, time)) => Some((date_parts(Some(date))->0, time_parts(Some(time))->0)),
        None => None,
    }
}

/// Calls `chrono::NaiveDate::parse_from_str` and takes the result apart with `Datelike`. The
/// contract claims only that the outcome is the one that `chrono_date` names: the same text and
/// format always give the same date or the same failure.
#[verifier::external_body]
fn naive_date_from_str(text: &str, format: &str) -> (r: Option<(i32, u32, u32)>)
    ensures
        date_parts(r) == chrono_date(text@, format@),
{
    match chrono::NaiveDate::parse_from_str(text, format) {
        Ok(date) => Some((date.year(), date.month(), date.day())),
        Err(_) => None,
    }
}

/// Calls `chrono::NaiveTime::parse_from_str` and takes the result apart with `Timelike`. The
/// contract claims only that the outcome is the one that `chrono_time` names.
#[verifier::external_body]
fn naive_time_from_str(text: &str, format: &str) -> (r: Option<(u32, u32, u32, u32)>)
    ensures
        time_parts(r) == chrono_time(text@, format@),
{
    match chrono::NaiveTime::parse_from_str(text, format) {
        Ok(time) => Some((time.hour(), time.minute(), time.second(), time.nanosecond())),
        Err(_) => None,
    }
}

/// Calls `chrono::NaiveDateTime::parse_from_str` and takes the result apart with `Datelike` and
/// `Timelike`. The contract claims only that the outcome is the one that `chrono_date_time`
/// names.
#[verifier::external_body]
fn naive_date_time_from_str(text: &str, format: &str) -> (r: Option<
    ((i32, u32, u32), (u32, u32, u32, u32)),
>)
    ensures
        date_time_parts(r) == chrono_date_time(text@, format@),
{
    match chrono::NaiveDateTime::parse_from_str(text, format) {
        Ok(value) => Some(
            (
                (value.year(), value.month(), value.day()),
                (value.hour(), value.minute(), value.second(), value.nanosecond()),
            ),
        ),
        Err(_) => None,
    }
}

/// The date that the parts name, if they name one.
pub open spec fn date_of(parts: Option<(int, int, int)>) -> Result<Date, TimeError> {
    match parts {
        Some((year, month, day)) => if is_calendar_date(year, month, day) && i32::MIN <= year
            <= i32::MAX {
            Ok(Date { year: year as i32, month: month as u32, day: day as u32 })
        } else {
            Err(TimeError::InvalidDate)
        },
        None => Err(TimeError::InvalidDate),
    }
}

/// The time that the parts name, if they name one.
pub open spec fn time_of(parts: Option<(int, int, int, int)>) -> Result<Time, TimeError> {
    match parts {
        Some((hour, minute, second, nanosecond)) => if is_time_of_day(
            hour,
            minute,
            second,
            nanosecond,
        ) {
            Ok(
                Time {
                    hour: hour as u32,
                    minute: minute as u32,
                    second: second as u32,
                    nanosecond: nanosecond as u32,
                },
            )
        } else {
            Err(TimeError::InvalidTime)
        },
        None => Err(TimeError::InvalidTime),
    }
}

/// The date and time that the parts name, if they name both.
pub open spec fn date_time_of(parts: Option<((int, int, int), (int, int, int, int))>) -> Result<
    DateTime,
    TimeError,
> {
    match parts {
        Some((date, time)) => match (date_of(Some(date)), time_of(Some(time))) {
            (Ok(date), Ok(time)) => Ok(DateTime { date, time }),
            _ => Err(TimeError::InvalidTime),
        },
        None => Err(TimeError::InvalidTime),
    }
}

/// Makes a date of the parts that a date was read into, and fails where nothing was read or
/// the parts name no day of the calendar.
pub fn date_from_parts(parts: Option<(i32, u32, u32)>) -> (r: Result<Date, TimeError>)
    ensures
        r == date_of(date_parts(parts)),
        r is Ok ==> r->Ok_0.is_valid(),
{
    match parts {
        Some((year, month, day)) => match Date::new(year, month, day) {
            Some(date) => Ok(date),
            None => Err(TimeError::InvalidDate),
        },
        None => Err(TimeError::InvalidDate),
    }
}

/// Makes a time of the parts that a time was read into, and fails where nothing was read or
/// the parts name no time of day.
pub fn time_from_parts(parts: Option<(u32, u32, u32, u32)>) -> (r: Result<Time, TimeError>)
    ensures
        r == time_of(time_parts(parts)),
        r is Ok ==> r->Ok_0.is_valid(),
{
    match parts {
        Some((hour, minute, second, nanosecond)) => match Time::new(
            hour,
            minute,
            second,
            nanosecond,
        ) {
            Some(time) => Ok(time),
            None => Err(TimeError::InvalidTime),
        },
        None => Err(TimeError::InvalidTime),
    }
}

/// Makes a date with a time of the parts that both were read into.
pub fn date_time_from_parts(parts: Option<((i32, u32, u32), (u32, u32, u32, u32))>) -> (r: Result<
    DateTime,
    TimeError,
>)
    ensures
        r == date_time_of(date_time_parts(parts)),
        r is Ok ==> r->Ok_0.is_valid(),
{
    match parts {
        Some((date, time)) => {
            match (date_from_parts(Some(date)), time_from_parts(Some(time))) {
                (Ok(date), Ok(time)) => Ok(DateTime { date, time }),
                _ => Err(TimeError::InvalidTime),
            }
        },
        None => Err(TimeError::InvalidTime),
    }
}

/// Reads a date written in the given `strftime` format.
pub fn parse_date(date: &str, format: &str) -> (r: Result<Date, TimeError>)
    ensures
        r == date_of(chrono_date(date@, format@)),
        r is Ok ==> r->Ok_0.is_valid(),
{
    date_from_parts(naive_date_from_str(date, format))
}

/// Reads a time of day written in the given `strftime` format.
pub fn parse_time(time: &str, format: &str) -> (r: Result<Time, TimeError>)
    ensures
        r == time_of(chrono_time(time@, format@)),
        r is Ok ==> r->Ok_0.is_valid(),
{
    time_from_parts(naive_time_from_str(time, format))
}

/// Reads a date with a time of day written in the given `strftime` format.
pub fn parse_date_time(date_time: &str, format: &str) -> (r: Result<DateTime, TimeError>)
    ensures
        r == date_time_of(chrono_date_time(date_time@, format@)),
        r is Ok ==> r->Ok_0.is_valid(),
{
    date_time_from_parts(naive_date_time_from_str(date_time, format))
}

/// The format of a date with a time in the configuration.
pub open spec fn config_date_time_format() -> Seq<char> {
    "%Y.%m.%d %H:%M:%S"@
}

/// The format of a date in the configuration.
pub open spec fn config_date_format() -> Seq<char> {
    "%d.%m.%Y"@
}

/// The date, with a time where one is given, that a text of the configuration names: it is
/// read as a date with a time first, and as a date alone where that fails.
pub open spec fn date_opt_time_of(text: Seq<char>) -> Result<DateOptTime, TimeError> {
    match date_time_of(chrono_date_time(text, config_date_time_format())) {
        Ok(date_time) => Ok(DateOptTime { date: date_time.date, time: Some(date_time.time) }),
        Err(_) => match date_of(chrono_date(text, config_date_format())) {
            Ok(date) => Ok(DateOptTime { date, time: None }),
            Err(error) => Err(error),
        },
    }
}

/// Reads a date, with a time of day where one is given, as the configuration writes them.
pub fn parse_date_opt_time(value: &str) -> (r: Result<DateOptTime, TimeError>)
    ensures
        r == date_opt_time_of(value@),
{
    match parse_date_time(value, "%Y.%m.%d %H:%M:%S") {
        Ok(date_time) => Ok(DateOptTime { date: date_time.date, time: Some(date_time.time) }),
        Err(_) => match parse_date(value, "%d.%m.%Y") {
            Ok(date) => Ok(DateOptTime { date, time: None }),
            Err(error) => Err(error),
        },
    }
}

/// Whether `chrono_tz::Tz` has a time zone of this name.
pub uninterp spec fn chrono_tz_knows(name: Seq<char>) -> bool;

/// Asks `<chrono_tz::Tz as FromStr>::from_str` for the time zone of the name. The contract
/// claims only that the answer is the one that `chrono_tz_knows` names: the same name is
/// always known or always unknown.
#[verifier::external_body]
fn tz_from_str(name: &str) -> (r: bool)
    ensures
        r == chrono_tz_knows(name@),
{
    name.parse::<chrono_tz::Tz>().is_ok()
}

/// Reads the name of a time zone.
pub fn parse_timezone(timezone: &str) -> (r: Result<Timezone, TimeError>)
    ensures
        match r {
            Ok(zone) => chrono_tz_knows(timezone@) && zone.name@ == timezone@,
            Err(error) => !chrono_tz_knows(timezone@) && error == TimeError::InvalidTimeZone,
        },
{
    timezone_from_answer(timezone, tz_from_str(timezone))
}

/// Makes a time zone of a name that the time zone database was asked for.
pub fn timezone_from_answer(timezone: &str, known: bool) -> (r: Result<Timezone, TimeError>)
    ensures
        match r {
            Ok(zone) => known && zone.name@ == timezone@,
            Err(error) => !known && error == TimeError::InvalidTimeZone,
        },
{
    if known {
        Ok(Timezone { name: timezone.to_owned() })
    } else {
        Err(TimeError::InvalidTimeZone)
    }
}

/// Refuses a time that lies an hour or more after now, where that is to be checked. Both
/// times are counted in seconds from the same moment.
pub fn check_not_from_future(time: i64, now: i64, future_check: bool) -> (r: Result<(), TimeError>)
    ensures
        r == if future_check && time - now >= 3600 {
            Err::<(), TimeError>(TimeError::FromFuture)
        } else {
            Ok(())
        },
{
    if future_check && time as i128 - now as i128 >= 3600 {
        Err(TimeError::FromFuture)
    } else {
        Ok(())
    }
}

/// The longest span of time, in seconds.
pub const MAX_SECONDS: i64 = 9_223_372_036_854_775;

/// The seconds in the unit that a letter stands for: minutes, hours or days.
pub open spec fn unit_seconds(unit: char) -> Option<int> {
    if unit == 'm' {
        Some(60)
    } else if unit == 'h' {
        Some(3600)
    } else if unit == 'd' {
        Some(86400)
    } else {
        None
    }
}

/// The seconds of a span of time that is written as a number without a leading zero and the
/// letter of a unit, where the span is no longer than the longest.
pub open spec fn duration_seconds(text: Seq<char>) -> Option<int> {
    if text.len() < 2 {
        None
    } else {
        let number = text.drop_last();
        match unit_seconds(text.last()) {
            Some(unit) => if all_digits(number) && number[0] != '0' && digits_value(number) * unit
                <= MAX_SECONDS {
                Some(digits_value(number) * unit)
            } else {
                None
            },
            None => None,
        }
    }
}

/// A run of digits that does not start with a zero writes a number of at least ten to the
/// power of one less than its length.
pub proof fn lemma_digits_value_at_least(s: Seq<char>)
    requires
        s.len() >= 1,
        all_digits(s),
        s[0] != '0',
    ensures
        digits_value(s) >= pow10((s.len() - 1) as nat),
    decreases s.len(),
{
    if s.len() == 1 {
        assert(s.drop_last().len() == 0);
        assert(digits_value(s.drop_last()) == 0);
        assert(s.last() == s[0]);
        assert(is_digit(s[0]));
        assert(pow10(0) == 1);
    } else {
        let init = s.drop_last();
        assert forall|i: int| 0 <= i < init.len() implies is_digit(#[trigger] init[i]) by {
            assert(init[i] == s[i]);
        }
        assert(init[0] == s[0]);
        lemma_digits_value_at_least(init);
        assert(is_digit(s[s.len() - 1]));
        assert(pow10((s.len() - 1) as nat) == 10 * pow10((s.len() - 2) as nat));
    }
}

/// Reads a span of time: a number without a leading zero, and `m`, `h` or `d` for minutes,
/// hours or days.
pub fn parse_duration(string: &str) -> (r: Result<Duration, TimeError>)
    ensures
        match r {
            Ok(duration) => duration_seconds(string@) == Some(duration.seconds as int),
            Err(error) => duration_seconds(string@) is None && error == TimeError::InvalidDuration,
        },
{
    let chars = chars_of(string);
    let n = chars.len();
    if n < 2 {
        return Err(TimeError::InvalidDuration);
    }
    let unit: i128 = match chars[n - 1] {
        'm' => 60,
        'h' => 3600,
        'd' => 86400,
        _ => {
            return Err(TimeError::InvalidDuration);
        },
    };
    let ghost number = chars@.drop_last();
    let mut i: usize = 0;
    let mut value: i128 = 0;
    proof {
        lemma_pow10_values();
    }
    while i < n - 1
        invariant
            0 <= i <= n - 1,
            n == chars.len(),
            n >= 2,
            i <= 17,
            chars@ == string@,
            unit_seconds(chars@.last()) == Some(unit as int),
            60 <= unit <= 86400,
            number == chars@.drop_last(),
            i >= 1 ==> number[0] != '0',
            all_digits(number.take(i as int)),
            value == digits_value(number.take(i as int)),
            0 <= value < pow10(i as nat),
            pow10(18) == 1_000_000_000_000_000_000,
        decreases n - 1 - i,
    {
        if !is_decimal_digit(chars[i]) {
            assert(number[i as int] == chars[i as int]);
            return Err(TimeError::InvalidDuration);
        }
        if i == 0 && chars[0] == '0' {
            assert(number[0] == chars[0]);
            return Err(TimeError::InvalidDuration);
        }
        if i == 17 {
            proof {
                if all_digits(number) && number[0] != '0' {
                    lemma_digits_value_at_least(number);
                    lemma_pow10_monotonic(17, (number.len() - 1) as nat);
                    reveal_with_fuel(pow10, 2);
                    assert(pow10(18) == 10 * pow10(17));
                    assert(digits_value(number) * unit >= digits_value(number)) by (nonlinear_arith)
                        requires
                            digits_value(number) >= 0,
                            unit >= 1,
                    ;
                }
            }
            return Err(TimeError::InvalidDuration);
        }
        let ghost before = number.take(i as int);
        let ghost after = number.take(i + 1);
        proof {
            assert(after.drop_last() =~= before);
            assert(after.last() == chars[i as int]);
            lemma_pow10_monotonic(i as nat, 17);
            lemma_pow10_monotonic(17, 18);
        }
        value = value * 10 + decimal_digit(chars[i]) as i128;
        i = i + 1;
        proof {
            assert forall|j: int| 0 <= j < after.len() implies is_digit(#[trigger] after[j]) by {
                if j < before.len() {
                    assert(after[j] == before[j]);
                }
            }
        }
    }
    proof {
        assert(number.take(number.len() as int) =~= number);
        assert(number[0] == chars[0]);
        lemma_pow10_monotonic(i as nat, 18);
    }
    assert(value * unit <= 1_000_000_000_000_000_000 * 86400) by (nonlinear_arith)
        requires
            0 <= value <= 1_000_000_000_000_000_000,
            0 <= unit <= 86400,
    ;
    let seconds = value * unit;
    if seconds > MAX_SECONDS as i128 {
        return Err(TimeError::InvalidDuration);
    }
    assert(seconds >= 0) by (nonlinear_arith)
        requires
            seconds == value * unit,
            value >= 0,
            unit >= 0,
    ;
    Ok(Duration { seconds: seconds as i64 })
}

} // verus!
