//! Writing a value in its one fixed form.

use vstd::prelude::*;
use vstd::string::*;
use crate::calendar::{days_in_month, month_length, Date};
use crate::clock::{Time, UtcOffset};
use crate::datetime::{OffsetDateTime, PrimitiveDateTime};
use crate::digits::{decimal, digit_char, pow10, shortest_fraction};
use crate::error::Component;
use crate::format::{has_offset, sign_start, DateTimePattern, TimePattern, ZoneMarker};

verus! {

/// `YYYY-MM-DD`
pub open spec fn date_text(date: Date) -> Seq<char> {
    decimal(date.year as int, 4) + seq!['-'] + decimal(date.month as int, 2) + seq!['-'] + decimal(
        date.day as int,
        2,
    )
}

/// `HH:MM:SS`
pub open spec fn clock_text(time: Time) -> Seq<char> {
    decimal(time.hour as int, 2) + seq![':'] + decimal(time.minute as int, 2) + seq![':']
        + decimal(time.second as int, 2)
}

/// `HH:MM:SS.f`, the subsecond in as few digits as write it exactly, and in
/// one digit at least.
pub open spec fn time_text(time: Time) -> Seq<char> {
    clock_text(time) + seq!['.'] + shortest_fraction(time.nanosecond as int, 9)
}

/// `v` without its sign.
pub open spec fn size_of(v: int) -> int {
    if v < 0 {
        -v
    } else {
        v
    }
}

/// `+HH:MM`, or `-HH:MM` west of Greenwich.
pub open spec fn offset_text(offset: UtcOffset) -> Seq<char> {
    seq![
        if offset.hours < 0 || offset.minutes < 0 {
            '-'
        } else {
            '+'
        },
    ] + decimal(size_of(offset.hours as int), 2) + seq![':'] + decimal(
        size_of(offset.minutes as int),
        2,
    )
}

/// `YYYY-MM-DD HH:MM:SS`; the subsecond is not written.
pub open spec fn primitive_date_time_text(date_time: PrimitiveDateTime) -> Seq<char> {
    date_text(date_time.date) + seq![' '] + clock_text(date_time.time)
}

/// `YYYY-MM-DD HH:MM:SS+HH:MM`; the subsecond is not written.
pub open spec fn offset_date_time_text(date_time: OffsetDateTime) -> Seq<char> {
    primitive_date_time_text(date_time.date_time) + offset_text(date_time.offset)
}

/// The first `digits` digits of the nine that write `nanosecond` as a
/// fraction of a second.
pub open spec fn subsecond_text(nanosecond: int, digits: nat) -> Seq<char> {
    decimal(nanosecond / pow10((9 - digits) as nat), digits)
}

/// A time of day as `pattern` writes it, with `digits` digits of subsecond
/// where the pattern has a subsecond.
pub open spec fn time_text_as(time: Time, pattern: TimePattern, digits: nat) -> Seq<char> {
    match pattern {
        TimePattern::HourMinute => decimal(time.hour as int, 2) + seq![':'] + decimal(
            time.minute as int,
            2,
        ),
        TimePattern::Seconds => clock_text(time),
        TimePattern::Subseconds => clock_text(time) + seq!['.'] + subsecond_text(
            time.nanosecond as int,
            digits,
        ),
    }
}

/// The subsecond of a timestamp as a pattern writes it: the character
/// `lead` and `digits` digits, or nothing where the pattern has no subsecond.
pub open spec fn subsecond_part(lead: Option<char>, nanosecond: int, digits: nat) -> Seq<char> {
    match lead {
        Some(c) => seq![c] + subsecond_text(nanosecond, digits),
        None => Seq::empty(),
    }
}

/// What a pattern writes after the time of day and the subsecond.
pub open spec fn zone_part(zone: ZoneMarker, offset: UtcOffset) -> Seq<char> {
    match zone {
        ZoneMarker::Absent => Seq::empty(),
        ZoneMarker::Z => seq!['Z'],
        ZoneMarker::Offset => offset_text(offset),
        ZoneMarker::SpacedOffset => seq![' '] + offset_text(offset),
    }
}

/// A timestamp as `pattern` writes it, with `digits` digits of subsecond
/// where the pattern has a subsecond.
pub open spec fn date_time_text_as(
    value: OffsetDateTime,
    pattern: DateTimePattern,
    digits: nat,
) -> Seq<char> {
    let layout = pattern.layout();
    date_text(value.date_time.date) + seq![layout.separator] + clock_text(value.date_time.time)
        + subsecond_part(layout.subsecond_lead, value.date_time.time.nanosecond as int, digits)
        + zone_part(layout.zone, value.offset)
}

/// Whether `digits` digits write `nanosecond` exactly.
pub open spec fn written_exactly(nanosecond: int, digits: nat) -> bool {
    1 <= digits <= 9 && nanosecond % pow10((9 - digits) as nat) == 0
}

/// Whether `pattern` writes all of `value` in `digits` digits of subsecond:
/// the value can be written at all, it has no subsecond where the pattern
/// has none and else one that the digits write exactly, and it is of UTC
/// where the pattern has no offset.
pub open spec fn writes_all(pattern: DateTimePattern, value: OffsetDateTime, digits: nat) -> bool {
    &&& value.unwritable() is None
    &&& pattern.layout().subsecond_lead is None ==> value.date_time.time.nanosecond == 0
    &&& pattern.layout().subsecond_lead is Some ==> written_exactly(
        value.date_time.time.nanosecond as int,
        digits,
    )
    &&& pattern.layout().zone == ZoneMarker::Absent || pattern.layout().zone == ZoneMarker::Z
        ==> value.offset == UtcOffset::utc()
}

/// Whether `text` is what `pattern` writes of `value` in `digits` digits of
/// subsecond, and `pattern` writes all of `value`. Before an offset of zero
/// the text may have a minus, where a plus is written.
pub open spec fn is_written_as(
    text: Seq<char>,
    value: OffsetDateTime,
    pattern: DateTimePattern,
    digits: nat,
) -> bool {
    &&& writes_all(pattern, value, digits)
    &&& text == date_time_text_as(value, pattern, digits) || (has_offset(pattern) && value.offset
        == UtcOffset::utc() && text == date_time_text_as(value, pattern, digits).update(
        sign_start(pattern, digits),
        '-',
    ))
}

impl Date {
    /// The first field that keeps this date from being written: a year that
    /// four digits do not write, or a field that makes the date invalid.
    pub open spec fn unwritable(self) -> Option<Component> {
        if !(0 <= self.year <= 9999) {
            Some(Component::Year)
        } else if !(1 <= self.month <= 12) {
            Some(Component::Month)
        } else if !(1 <= self.day <= days_in_month(self.year as int, self.month as int)) {
            Some(Component::Day)
        } else {
            None
        }
    }

    /// Finds the first field that keeps this date from being written.
    pub fn find_unwritable(&self) -> (found: Option<Component>)
        ensures
            found == self.unwritable(),
    {
        if !(0 <= self.year && self.year <= 9999) {
            Some(Component::Year)
        } else if !(1 <= self.month && self.month <= 12) {
            Some(Component::Month)
        } else if !(1 <= self.day && self.day <= month_length(self.year, self.month)) {
            Some(Component::Day)
        } else {
            None
        }
    }
}

impl Time {
    /// The first field that is out of its range.
    pub open spec fn unwritable(self) -> Option<Component> {
        if self.hour >= 24 {
            Some(Component::Hour)
        } else if self.minute >= 60 {
            Some(Component::Minute)
        } else if self.second >= 60 {
            Some(Component::Second)
        } else if self.nanosecond >= 1_000_000_000 {
            Some(Component::Subsecond)
        } else {
            None
        }
    }

    /// Finds the first field that is out of its range.
    pub fn find_unwritable(&self) -> (found: Option<Component>)
        ensures
            found == self.unwritable(),
    {
        if self.hour >= 24 {
            Some(Component::Hour)
        } else if self.minute >= 60 {
            Some(Component::Minute)
        } else if self.second >= 60 {
            Some(Component::Second)
        } else if self.nanosecond >= 1_000_000_000 {
            Some(Component::Subsecond)
        } else {
            None
        }
    }
}

impl UtcOffset {
    /// The first field that is out of its range; the minutes also where
    /// their sign is not that of the hours.
    pub open spec fn unwritable(self) -> Option<Component> {
        if !(-25 <= self.hours <= 25) {
            Some(Component::OffsetHour)
        } else if !(-59 <= self.minutes <= 59) || (self.hours > 0 && self.minutes < 0) || (
        self.hours < 0 && self.minutes > 0) {
            Some(Component::OffsetMinute)
        } else {
            None
        }
    }

    /// Finds the first field that is out of its range.
    pub fn find_unwritable(&self) -> (found: Option<Component>)
        ensures
            found == self.unwritable(),
    {
        if !(-25 <= self.hours && self.hours <= 25) {
            Some(Component::OffsetHour)
        } else if !(-59 <= self.minutes && self.minutes <= 59) || (self.hours > 0 && self.minutes
            < 0) || (self.hours < 0 && self.minutes > 0) {
            Some(Component::OffsetMinute)
        } else {
            None
        }
    }
}

impl PrimitiveDateTime {
    /// The first field that keeps this timestamp from being written, the
    /// date before the time of day.
    pub open spec fn unwritable(self) -> Option<Component> {
        if self.date.unwritable() is Some {
            self.date.unwritable()
        } else {
            self.time.unwritable()
        }
    }

    /// Finds the first field that keeps this timestamp from being written.
    pub fn find_unwritable(&self) -> (found: Option<Component>)
        ensures
            found == self.unwritable(),
    {
        match self.date.find_unwritable() {
            Some(c) => Some(c),
            None => self.time.find_unwritable(),
        }
    }
}

impl OffsetDateTime {
    /// The first field that keeps this timestamp from being written: the
    /// date, then the time of day, then the offset.
    pub open spec fn unwritable(self) -> Option<Component> {
        if self.date_time.unwritable() is Some {
            self.date_time.unwritable()
        } else {
            self.offset.unwritable()
        }
    }

    /// Finds the first field that keeps this timestamp from being written.
    pub fn find_unwritable(&self) -> (found: Option<Component>)
        ensures
            found == self.unwritable(),
    {
        match self.date_time.find_unwritable() {
            Some(c) => Some(c),
            None => self.offset.find_unwritable(),
        }
    }
}

/// The text of one digit.
fn digit_str(d: u32) -> (text: &'static str)
    requires
        d < 10,
    ensures
        text@ == seq![digit_char(d as int)],
{
    proof {
        reveal_strlit("0");
        reveal_strlit("1");
        reveal_strlit("2");
        reveal_strlit("3");
        reveal_strlit("4");
        reveal_strlit("5");
        reveal_strlit("6");
        reveal_strlit("7");
        reveal_strlit("8");
        reveal_strlit("9");
    }
    let text = if d == 0 {
        "0"
    } else if d == 1 {
        "1"
    } else if d == 2 {
        "2"
    } else if d == 3 {
        "3"
    } else if d == 4 {
        "4"
    } else if d == 5 {
        "5"
    } else if d == 6 {
        "6"
    } else if d == 7 {
        "7"
    } else if d == 8 {
        "8"
    } else {
        "9"
    };
    assert(text@ =~= seq![digit_char(d as int)]);
    text
}

/// Appends `v` in exactly `n` digits.
fn push_decimal(out: &mut String, v: u32, n: u32)
    ensures
        final(out)@ == old(out)@ + decimal(v as int, n as nat),
    decreases n,
{
    if n > 0 {
        push_decimal(out, v / 10, n - 1);
        out.append(digit_str(v % 10));
        assert(final(out)@ =~= old(out)@ + decimal(v as int, n as nat));
    } else {
        assert(out@ =~= old(out)@ + decimal(v as int, 0));
    }
}

/// Appends `v`, a fraction of `n` places, without its trailing zeros.
fn push_shortest_fraction(out: &mut String, v: u32, n: u32)
    ensures
        final(out)@ == old(out)@ + shortest_fraction(v as int, n as nat),
    decreases n,
{
    if n > 1 && v % 10 == 0 {
        push_shortest_fraction(out, v / 10, n - 1);
    } else {
        push_decimal(out, v, n);
    }
}

/// Appends the one character of `mark`.
fn push_mark(out: &mut String, mark: &str)
    ensures
        final(out)@ == old(out)@ + mark@,
{
    out.append(mark);
}

/// Appends `YYYY-MM-DD`.
pub(crate) fn push_date(out: &mut String, date: &Date)
    requires
        0 <= date.year,
    ensures
        final(out)@ == old(out)@ + date_text(*date),
{
    proof {
        reveal_strlit("-");
    }
    push_decimal(out, date.year as u32, 4);
    push_mark(out, "-");
    push_decimal(out, date.month as u32, 2);
    push_mark(out, "-");
    push_decimal(out, date.day as u32, 2);
    assert(final(out)@ =~= old(out)@ + date_text(*date));
}

/// Appends `HH:MM:SS`.
pub(crate) fn push_clock(out: &mut String, time: &Time)
    ensures
        final(out)@ == old(out)@ + clock_text(*time),
{
    proof {
        reveal_strlit(":");
    }
    push_decimal(out, time.hour as u32, 2);
    push_mark(out, ":");
    push_decimal(out, time.minute as u32, 2);
    push_mark(out, ":");
    push_decimal(out, time.second as u32, 2);
    assert(final(out)@ =~= old(out)@ + clock_text(*time));
}

/// Appends `HH:MM:SS.f`.
pub(crate) fn push_time(out: &mut String, time: &Time)
    ensures
        final(out)@ == old(out)@ + time_text(*time),
{
    proof {
        reveal_strlit(".");
    }
    push_clock(out, time);
    push_mark(out, ".");
    push_shortest_fraction(out, time.nanosecond, 9);
    assert(final(out)@ =~= old(out)@ + time_text(*time));
}

/// Appends the sign and `HH:MM`.
pub(crate) fn push_offset(out: &mut String, offset: &UtcOffset)
    requires
        -128 < offset.hours,
        -128 < offset.minutes,
    ensures
        final(out)@ == old(out)@ + offset_text(*offset),
{
    proof {
        reveal_strlit("-");
        reveal_strlit("+");
        reveal_strlit(":");
    }
    if offset.hours < 0 || offset.minutes < 0 {
        push_mark(out, "-");
    } else {
        push_mark(out, "+");
    }
    push_decimal(out, magnitude(offset.hours), 2);
    push_mark(out, ":");
    push_decimal(out, magnitude(offset.minutes), 2);
    assert(final(out)@ =~= old(out)@ + offset_text(*offset));
}

/// The size of `v` without its sign.
fn magnitude(v: i8) -> (size: u32)
    requires
        -128 < v,
    ensures
        size as int == size_of(v as int),
{
    if v < 0 {
        (-v) as u32
    } else {
        v as u32
    }
}

} // verus!
