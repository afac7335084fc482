//! Reading a text under a pattern.
//!
//! A pattern is read from left to right. The first part of it that the text
//! does not follow decides the error; a text that follows all of it and goes
//! on is refused as well, and only then is the date held against the calendar.
//!
//! The texts that are read under a pattern are those that the pattern
//! writes, and each is read as the value that it writes: see the laws.

use vstd::prelude::*;
use crate::calendar::Date;
use crate::clock::{Time, UtcOffset};
use crate::datetime::{OffsetDateTime, PrimitiveDateTime};
use crate::digits::{
    char_at, digit_run, digits_at, has_char, is_digit, lemma_digit_run_digits,
    lemma_digit_run_prefix, lemma_digits_at_is_decimal, lemma_pow10_values, pow10, read_digits,
};
use crate::error::{Component, ParseError};
use crate::format::{DateTimePattern, Layout, TimePattern, ZoneMarker};

verus! {

/// The number that `n` digits at `at` write, where it lies from `low` to
/// `high`.
pub open spec fn field_at(s: Seq<char>, at: int, n: nat, low: int, high: int) -> Option<int> {
    match digits_at(s, at, n) {
        Some(v) => if low <= v <= high {
            Some(v)
        } else {
            None
        },
        None => None,
    }
}

/// The fields of `YYYY-MM-DD` at position `at`, each within its range; the
/// day is not yet held against the length of the month.
pub open spec fn date_at(s: Seq<char>, at: int) -> Result<Date, ParseError> {
    let year = field_at(s, at, 4, 0, 9999);
    let month = field_at(s, at + 5, 2, 1, 12);
    let day = field_at(s, at + 8, 2, 1, 31);
    if year is None {
        Err(ParseError::InvalidComponent(Component::Year))
    } else if !has_char(s, at + 4, '-') {
        Err(ParseError::InvalidLiteral)
    } else if month is None {
        Err(ParseError::InvalidComponent(Component::Month))
    } else if !has_char(s, at + 7, '-') {
        Err(ParseError::InvalidLiteral)
    } else if day is None {
        Err(ParseError::InvalidComponent(Component::Day))
    } else {
        Ok(Date { year: year->0 as i32, month: month->0 as u8, day: day->0 as u8 })
    }
}

/// The time of day that `HH:MM` at position `at` writes, or `HH:MM:SS` where
/// `seconds` is set.
pub open spec fn clock_at(s: Seq<char>, at: int, seconds: bool) -> Result<Time, ParseError> {
    let hour = field_at(s, at, 2, 0, 23);
    let minute = field_at(s, at + 3, 2, 0, 59);
    let second = field_at(s, at + 6, 2, 0, 59);
    if hour is None {
        Err(ParseError::InvalidComponent(Component::Hour))
    } else if !has_char(s, at + 2, ':') {
        Err(ParseError::InvalidLiteral)
    } else if minute is None {
        Err(ParseError::InvalidComponent(Component::Minute))
    } else if !seconds {
        Ok(Time { hour: hour->0 as u8, minute: minute->0 as u8, second: 0, nanosecond: 0 })
    } else if !has_char(s, at + 5, ':') {
        Err(ParseError::InvalidLiteral)
    } else if second is None {
        Err(ParseError::InvalidComponent(Component::Second))
    } else {
        Ok(
            Time {
                hour: hour->0 as u8,
                minute: minute->0 as u8,
                second: second->0 as u8,
                nanosecond: 0,
            },
        )
    }
}

/// The nanoseconds that the run of digits at position `at` writes as a
/// decimal fraction of a second. The run has one to nine digits.
pub open spec fn subsecond_at(s: Seq<char>, at: int) -> Result<int, ParseError> {
    let count = digit_run(s, at);
    if 1 <= count <= 9 {
        Ok(digits_at(s, at, count)->0 * pow10((9 - count) as nat))
    } else {
        Err(ParseError::InvalidComponent(Component::Subsecond))
    }
}

/// The offset that a sign, `HH`, a colon and `MM` at position `at` write.
pub open spec fn offset_at(s: Seq<char>, at: int) -> Result<UtcOffset, ParseError> {
    let hours = field_at(s, at + 1, 2, 0, 25);
    let minutes = field_at(s, at + 4, 2, 0, 59);
    if !has_char(s, at, '+') && !has_char(s, at, '-') {
        Err(ParseError::InvalidComponent(Component::OffsetHour))
    } else if hours is None {
        Err(ParseError::InvalidComponent(Component::OffsetHour))
    } else if !has_char(s, at + 3, ':') {
        Err(ParseError::InvalidLiteral)
    } else if minutes is None {
        Err(ParseError::InvalidComponent(Component::OffsetMinute))
    } else if has_char(s, at, '-') {
        Ok(UtcOffset { hours: (-hours->0) as i8, minutes: (-minutes->0) as i8 })
    } else {
        Ok(UtcOffset { hours: hours->0 as i8, minutes: minutes->0 as i8 })
    }
}

/// The date that `s` writes as `YYYY-MM-DD`.
pub open spec fn date_of(s: Seq<char>) -> Result<Date, ParseError> {
    let date = date_at(s, 0);
    if date is Err {
        date
    } else if s.len() > 10 {
        Err(ParseError::UnexpectedTrailingCharacters)
    } else if !date->Ok_0.is_valid() {
        Err(ParseError::InvalidDate)
    } else {
        date
    }
}

/// The time of day that `s` writes under `pattern`.
pub open spec fn time_of(s: Seq<char>, pattern: TimePattern) -> Result<Time, ParseError> {
    let clock = clock_at(s, 0, pattern != TimePattern::HourMinute);
    let subsecond = subsecond_at(s, 9);
    if clock is Err {
        clock
    } else if pattern == TimePattern::HourMinute {
        if s.len() > 5 {
            Err(ParseError::UnexpectedTrailingCharacters)
        } else {
            clock
        }
    } else if pattern == TimePattern::Seconds {
        if s.len() > 8 {
            Err(ParseError::UnexpectedTrailingCharacters)
        } else {
            clock
        }
    } else if !has_char(s, 8, '.') {
        Err(ParseError::InvalidLiteral)
    } else if subsecond is Err {
        Err(subsecond->Err_0)
    } else if s.len() > 9 + digit_run(s, 9) {
        Err(ParseError::UnexpectedTrailingCharacters)
    } else {
        Ok(
            Time {
                hour: clock->Ok_0.hour,
                minute: clock->Ok_0.minute,
                second: clock->Ok_0.second,
                nanosecond: subsecond->Ok_0 as u32,
            },
        )
    }
}

/// The timestamp that `s` writes under `pattern`, at UTC where the pattern
/// has no offset.
pub open spec fn date_time_of(s: Seq<char>, pattern: DateTimePattern) -> Result<
    OffsetDateTime,
    ParseError,
> {
    let layout = pattern.layout();
    let date = date_at(s, 0);
    let clock = clock_at(s, 11, true);
    let subsecond = subsecond_at(s, 20);
    let zone_at: int = if layout.subsecond_lead is Some {
        (20 + digit_run(s, 20)) as int
    } else {
        19
    };
    let offset = offset_at(
        s,
        if layout.zone == ZoneMarker::SpacedOffset {
            zone_at + 1
        } else {
            zone_at
        },
    );
    let end = match layout.zone {
        ZoneMarker::Absent => zone_at,
        ZoneMarker::Z => zone_at + 1,
        ZoneMarker::Offset => zone_at + 6,
        ZoneMarker::SpacedOffset => zone_at + 7,
    };
    let with_offset = layout.zone == ZoneMarker::Offset || layout.zone == ZoneMarker::SpacedOffset;
    if date is Err {
        Err(date->Err_0)
    } else if !has_char(s, 10, layout.separator) {
        Err(ParseError::InvalidLiteral)
    } else if clock is Err {
        Err(clock->Err_0)
    } else if layout.subsecond_lead is Some && !has_char(s, 19, layout.subsecond_lead->0) {
        Err(ParseError::InvalidLiteral)
    } else if layout.subsecond_lead is Some && subsecond is Err {
        Err(subsecond->Err_0)
    } else if layout.zone == ZoneMarker::Z && !has_char(s, zone_at, 'Z') {
        Err(ParseError::InvalidLiteral)
    } else if layout.zone == ZoneMarker::SpacedOffset && !has_char(s, zone_at, ' ') {
        Err(ParseError::InvalidLiteral)
    } else if with_offset && offset is Err {
        Err(offset->Err_0)
    } else if s.len() > end {
        Err(ParseError::UnexpectedTrailingCharacters)
    } else if !date->Ok_0.is_valid() {
        Err(ParseError::InvalidDate)
    } else {
        Ok(
            OffsetDateTime {
                date_time: PrimitiveDateTime {
                    date: date->Ok_0,
                    time: Time {
                        hour: clock->Ok_0.hour,
                        minute: clock->Ok_0.minute,
                        second: clock->Ok_0.second,
                        nanosecond: if layout.subsecond_lead is Some {
                            subsecond->Ok_0 as u32
                        } else {
                            0
                        },
                    },
                },
                offset: if with_offset {
                    offset->Ok_0
                } else {
                    UtcOffset::utc()
                },
            },
        )
    }
}

/// Reads `n` digits at `at` and holds their number against `low` and `high`.
fn read_field(s: &[char], at: usize, n: usize, low: u32, high: u32) -> (number: Option<u32>)
    requires
        1 <= n <= 9,
        at + n <= usize::MAX,
    ensures
        number is Some <==> field_at(s@, at as int, n as nat, low as int, high as int) is Some,
        number is Some ==> number->0 as int == field_at(
            s@,
            at as int,
            n as nat,
            low as int,
            high as int,
        )->0,
        number is Some ==> low <= number->0 <= high,
{
    match read_digits(s, at, n) {
        Some(v) => if low <= v && v <= high {
            Some(v)
        } else {
            None
        },
        None => None,
    }
}

/// Reads `YYYY-MM-DD` at position `at`.
fn parse_date_at(s: &[char], at: usize) -> (date: Result<Date, ParseError>)
    requires
        at + 32 <= usize::MAX,
    ensures
        date == date_at(s@, at as int),
{
    let year: u32 = match read_field(s, at, 4, 0, 9999) {
        Some(v) => v,
        None => { return Err(ParseError::InvalidComponent(Component::Year)); },
    };
    if !char_at(s, at + 4, '-') {
        return Err(ParseError::InvalidLiteral);
    }
    let month: u32 = match read_field(s, at + 5, 2, 1, 12) {
        Some(v) => v,
        None => { return Err(ParseError::InvalidComponent(Component::Month)); },
    };
    if !char_at(s, at + 7, '-') {
        return Err(ParseError::InvalidLiteral);
    }
    let day: u32 = match read_field(s, at + 8, 2, 1, 31) {
        Some(v) => v,
        None => { return Err(ParseError::InvalidComponent(Component::Day)); },
    };
    Ok(Date { year: year as i32, month: month as u8, day: day as u8 })
}

/// Reads `HH:MM` at position `at`, or `HH:MM:SS` where `seconds` is set.
fn parse_clock_at(s: &[char], at: usize, seconds: bool) -> (time: Result<Time, ParseError>)
    requires
        at + 32 <= usize::MAX,
    ensures
        time == clock_at(s@, at as int, seconds),
{
    let hour: u32 = match read_field(s, at, 2, 0, 23) {
        Some(v) => v,
        None => { return Err(ParseError::InvalidComponent(Component::Hour)); },
    };
    if !char_at(s, at + 2, ':') {
        return Err(ParseError::InvalidLiteral);
    }
    let minute: u32 = match read_field(s, at + 3, 2, 0, 59) {
        Some(v) => v,
        None => { return Err(ParseError::InvalidComponent(Component::Minute)); },
    };
    if !seconds {
        return Ok(Time { hour: hour as u8, minute: minute as u8, second: 0, nanosecond: 0 });
    }
    if !char_at(s, at + 5, ':') {
        return Err(ParseError::InvalidLiteral);
    }
    let second: u32 = match read_field(s, at + 6, 2, 0, 59) {
        Some(v) => v,
        None => { return Err(ParseError::InvalidComponent(Component::Second)); },
    };
    Ok(Time { hour: hour as u8, minute: minute as u8, second: second as u8, nanosecond: 0 })
}

/// Reads the digits of a subsecond at position `at`: the nanoseconds they
/// write, and how many they are.
fn parse_subsecond_at(s: &[char], at: usize) -> (subsecond: Result<(u32, usize), ParseError>)
    requires
        at + 32 <= usize::MAX,
    ensures
        match subsecond {
            Ok((nanosecond, count)) => subsecond_at(s@, at as int) == Ok::<int, ParseError>(
                nanosecond as int,
            ) && count == digit_run(s@, at as int) && 1 <= count <= 9 && at + count <= s@.len()
                && nanosecond < 1_000_000_000,
            Err(e) => subsecond_at(s@, at as int) == Err::<int, ParseError>(e),
        },
{
    let mut count: usize = 0;
    while count < 10 && at + count < s.len() && s[at + count] >= '0' && s[at + count] <= '9'
        invariant
            at + 32 <= usize::MAX,
            count <= 10,
            at + count <= s@.len() || count == 0,
            forall|j: int| at <= j < at + count ==> is_digit(#[trigger] s@[j]),
        decreases 10 - count,
    {
        count = count + 1;
    }
    proof {
        if count > 0 {
            lemma_digit_run_prefix(s@, at as int, count as nat);
        }
    }
    if count == 0 || count == 10 {
        return Err(ParseError::InvalidComponent(Component::Subsecond));
    }
    assert(digit_run(s@, at as int) == count);
    proof {
        lemma_digit_run_digits(s@, at as int);
        lemma_digits_at_is_decimal(s@, at as int, count as nat);
        lemma_pow10_values();
    }
    let written: u32 = match read_digits(s, at, count) {
        Some(v) => v,
        None => { return Err(ParseError::InvalidComponent(Component::Subsecond)); },
    };
    let nanosecond: u32 = if count == 1 {
        written * 100_000_000
    } else if count == 2 {
        written * 10_000_000
    } else if count == 3 {
        written * 1_000_000
    } else if count == 4 {
        written * 100_000
    } else if count == 5 {
        written * 10_000
    } else if count == 6 {
        written * 1_000
    } else if count == 7 {
        written * 100
    } else if count == 8 {
        written * 10
    } else {
        written
    };
    Ok((nanosecond, count))
}

/// Reads a sign, `HH`, a colon and `MM` at position `at`.
fn parse_offset_at(s: &[char], at: usize) -> (offset: Result<UtcOffset, ParseError>)
    requires
        at + 32 <= usize::MAX,
    ensures
        offset == offset_at(s@, at as int),
{
    let negative = char_at(s, at, '-');
    if !negative && !char_at(s, at, '+') {
        return Err(ParseError::InvalidComponent(Component::OffsetHour));
    }
    let hours: u32 = match read_field(s, at + 1, 2, 0, 25) {
        Some(v) => v,
        None => { return Err(ParseError::InvalidComponent(Component::OffsetHour)); },
    };
    if !char_at(s, at + 3, ':') {
        return Err(ParseError::InvalidLiteral);
    }
    let minutes: u32 = match read_field(s, at + 4, 2, 0, 59) {
        Some(v) => v,
        None => { return Err(ParseError::InvalidComponent(Component::OffsetMinute)); },
    };
    if negative {
        Ok(UtcOffset { hours: -(hours as i8), minutes: -(minutes as i8) })
    } else {
        Ok(UtcOffset { hours: hours as i8, minutes: minutes as i8 })
    }
}

/// Reads a date written as `YYYY-MM-DD`.
pub fn parse_date(s: &[char]) -> (date: Result<Date, ParseError>)
    ensures
        date == date_of(s@),
{
    let date = match parse_date_at(s, 0) {
        Ok(d) => d,
        Err(e) => { return Err(e); },
    };
    if s.len() > 10 {
        return Err(ParseError::UnexpectedTrailingCharacters);
    }
    if !date.valid() {
        return Err(ParseError::InvalidDate);
    }
    Ok(date)
}

/// Reads a time of day under `pattern`.
pub fn parse_time(s: &[char], pattern: TimePattern) -> (time: Result<Time, ParseError>)
    ensures
        time == time_of(s@, pattern),
{
    match pattern {
        TimePattern::HourMinute => {
            let clock = match parse_clock_at(s, 0, false) {
                Ok(t) => t,
                Err(e) => { return Err(e); },
            };
            if s.len() > 5 {
                return Err(ParseError::UnexpectedTrailingCharacters);
            }
            Ok(clock)
        },
        TimePattern::Seconds => {
            let clock = match parse_clock_at(s, 0, true) {
                Ok(t) => t,
                Err(e) => { return Err(e); },
            };
            if s.len() > 8 {
                return Err(ParseError::UnexpectedTrailingCharacters);
            }
            Ok(clock)
        },
        TimePattern::Subseconds => {
            let clock = match parse_clock_at(s, 0, true) {
                Ok(t) => t,
                Err(e) => { return Err(e); },
            };
            if !char_at(s, 8, '.') {
                return Err(ParseError::InvalidLiteral);
            }
            let (nanosecond, count) = match parse_subsecond_at(s, 9) {
                Ok(found) => found,
                Err(e) => { return Err(e); },
            };
            if s.len() > 9 + count {
                return Err(ParseError::UnexpectedTrailingCharacters);
            }
            Ok(Time { hour: clock.hour, minute: clock.minute, second: clock.second, nanosecond })
        },
    }
}

/// Reads a timestamp under `pattern`. Where the pattern has no offset, the
/// timestamp is one of UTC.
pub fn parse_date_time(s: &[char], pattern: DateTimePattern) -> (date_time: Result<
    OffsetDateTime,
    ParseError,
>)
    ensures
        date_time == date_time_of(s@, pattern),
{
    let layout: Layout = pattern.parts();
    let date = match parse_date_at(s, 0) {
        Ok(d) => d,
        Err(e) => { return Err(e); },
    };
    if !char_at(s, 10, layout.separator) {
        return Err(ParseError::InvalidLiteral);
    }
    let clock = match parse_clock_at(s, 11, true) {
        Ok(t) => t,
        Err(e) => { return Err(e); },
    };
    let mut nanosecond: u32 = 0;
    let mut zone_at: usize = 19;
    match layout.subsecond_lead {
        Some(lead) => {
            if !char_at(s, 19, lead) {
                return Err(ParseError::InvalidLiteral);
            }
            match parse_subsecond_at(s, 20) {
                Ok((nanos, count)) => {
                    nanosecond = nanos;
                    zone_at = 20 + count;
                },
                Err(e) => { return Err(e); },
            }
        },
        None => {},
    }
    let mut offset = UtcOffset { hours: 0, minutes: 0 };
    let mut end: usize = zone_at;
    match layout.zone {
        ZoneMarker::Absent => {},
        ZoneMarker::Z => {
            if !char_at(s, zone_at, 'Z') {
                return Err(ParseError::InvalidLiteral);
            }
            end = zone_at + 1;
        },
        ZoneMarker::Offset => {
            match parse_offset_at(s, zone_at) {
                Ok(o) => { offset = o; },
                Err(e) => { return Err(e); },
            }
            end = zone_at + 6;
        },
        ZoneMarker::SpacedOffset => {
            if !char_at(s, zone_at, ' ') {
                return Err(ParseError::InvalidLiteral);
            }
            match parse_offset_at(s, zone_at + 1) {
                Ok(o) => { offset = o; },
                Err(e) => { return Err(e); },
            }
            end = zone_at + 7;
        },
    }
    if s.len() > end {
        return Err(ParseError::UnexpectedTrailingCharacters);
    }
    if !date.valid() {
        return Err(ParseError::InvalidDate);
    }
    Ok(
        OffsetDateTime {
            date_time: PrimitiveDateTime {
                date,
                time: Time {
                    hour: clock.hour,
                    minute: clock.minute,
                    second: clock.second,
                    nanosecond,
                },
            },
            offset,
        },
    )
}

} // verus!
