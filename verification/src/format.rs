//! The patterns that texts are read under, and how a text's length and
//! markers select one of them.
//!
//! Which optional parts a text has fixes its length, so the length, together
//! with two characters that are looked at, tells the patterns apart.

use vstd::prelude::*;

verus! {

/// What follows the time of day in a pattern of a timestamp.
#[derive(Clone, Copy, Debug, PartialEq, Eq, Structural)]
pub enum ZoneMarker {
    /// Nothing.
    Absent,
    /// The letter `Z`.
    Z,
    /// A sign, two digits of hours, a colon and two digits of minutes.
    Offset,
    /// A space, and then an offset.
    SpacedOffset,
}

/// The parts of a pattern of a timestamp. Every pattern begins with
/// `YYYY-MM-DD`, the separator and `HH:MM:SS`.
#[derive(Clone, Copy, Debug, PartialEq, Eq, Structural)]
pub struct Layout {
    /// The character between the date and the time of day.
    pub separator: char,
    /// The character before the digits of the subsecond, where the pattern
    /// has a subsecond.
    pub subsecond_lead: Option<char>,
    pub zone: ZoneMarker,
}

/// The patterns of timestamps.
#[derive(Clone, Copy, Debug, PartialEq, Eq, Structural)]
pub enum DateTimePattern {
    /// `YYYY-MM-DD HH:MM:SS`
    Plain,
    /// `YYYY-MM-DD HH:MM:SSZ`
    PlainZ,
    /// `YYYY-MM-DD HH:MM:SS.f`
    Subseconds,
    /// `YYYY-MM-DD HH:MM:SS.fZ`
    SubsecondsZ,
    /// `YYYY-MM-DDTHH:MM:SS`
    T,
    /// `YYYY-MM-DDTHH:MM:SSZ`
    TZ,
    /// `YYYY-MM-DDTHH:MM:SS.f`
    TSubseconds,
    /// `YYYY-MM-DDTHH:MM:SS.fZ`
    TSubsecondsZ,
    /// `YYYY-MM-DD HH:MM:SS+HH:MM`
    Offset,
    /// `YYYY-MM-DD HH:MM:SS.f+HH:MM`
    OffsetSubseconds,
    /// `YYYY-MM-DDTHH:MM:SS+HH:MM`
    OffsetT,
    /// `YYYY-MM-DDTHH:MM:SS.f+HH:MM`
    OffsetTSubseconds,
    /// `YYYY-MM-DD HH:MM:SS:f +HH:MM`, a form that is no longer written.
    Legacy,
}

impl DateTimePattern {
    pub open spec fn layout(self) -> Layout {
        match self {
            DateTimePattern::Plain => Layout {
                separator: ' ',
                subsecond_lead: None,
                zone: ZoneMarker::Absent,
            },
            DateTimePattern::PlainZ => Layout {
                separator: ' ',
                subsecond_lead: None,
                zone: ZoneMarker::Z,
            },
            DateTimePattern::Subseconds => Layout {
                separator: ' ',
                subsecond_lead: Some('.'),
                zone: ZoneMarker::Absent,
            },
            DateTimePattern::SubsecondsZ => Layout {
                separator: ' ',
                subsecond_lead: Some('.'),
                zone: ZoneMarker::Z,
            },
            DateTimePattern::T => Layout {
                separator: 'T',
                subsecond_lead: None,
                zone: ZoneMarker::Absent,
            },
            DateTimePattern::TZ => Layout {
                separator: 'T',
                subsecond_lead: None,
                zone: ZoneMarker::Z,
            },
            DateTimePattern::TSubseconds => Layout {
                separator: 'T',
                subsecond_lead: Some('.'),
                zone: ZoneMarker::Absent,
            },
            DateTimePattern::TSubsecondsZ => Layout {
                separator: 'T',
                subsecond_lead: Some('.'),
                zone: ZoneMarker::Z,
            },
            DateTimePattern::Offset => Layout {
                separator: ' ',
                subsecond_lead: None,
                zone: ZoneMarker::Offset,
            },
            DateTimePattern::OffsetSubseconds => Layout {
                separator: ' ',
                subsecond_lead: Some('.'),
                zone: ZoneMarker::Offset,
            },
            DateTimePattern::OffsetT => Layout {
                separator: 'T',
                subsecond_lead: None,
                zone: ZoneMarker::Offset,
            },
            DateTimePattern::OffsetTSubseconds => Layout {
                separator: 'T',
                subsecond_lead: Some('.'),
                zone: ZoneMarker::Offset,
            },
            DateTimePattern::Legacy => Layout {
                separator: ' ',
                subsecond_lead: Some(':'),
                zone: ZoneMarker::SpacedOffset,
            },
        }
    }

    /// The parts of this pattern.
    pub fn parts(&self) -> (layout: Layout)
        ensures
            layout == self.layout(),
    {
        let separator = match self {
            DateTimePattern::T
            | DateTimePattern::TZ
            | DateTimePattern::TSubseconds
            | DateTimePattern::TSubsecondsZ
            | DateTimePattern::OffsetT
            | DateTimePattern::OffsetTSubseconds => 'T',
            _ => ' ',
        };
        let subsecond_lead = match self {
            DateTimePattern::Subseconds
            | DateTimePattern::SubsecondsZ
            | DateTimePattern::TSubseconds
            | DateTimePattern::TSubsecondsZ
            | DateTimePattern::OffsetSubseconds
            | DateTimePattern::OffsetTSubseconds => Some('.'),
            DateTimePattern::Legacy => Some(':'),
            _ => None,
        };
        let zone = match self {
            DateTimePattern::PlainZ
            | DateTimePattern::SubsecondsZ
            | DateTimePattern::TZ
            | DateTimePattern::TSubsecondsZ => ZoneMarker::Z,
            DateTimePattern::Offset
            | DateTimePattern::OffsetSubseconds
            | DateTimePattern::OffsetT
            | DateTimePattern::OffsetTSubseconds => ZoneMarker::Offset,
            DateTimePattern::Legacy => ZoneMarker::SpacedOffset,
            _ => ZoneMarker::Absent,
        };
        Layout { separator, subsecond_lead, zone }
    }
}

/// The patterns of times of day.
#[derive(Clone, Copy, Debug, PartialEq, Eq, Structural)]
pub enum TimePattern {
    /// `HH:MM`
    HourMinute,
    /// `HH:MM:SS`
    Seconds,
    /// `HH:MM:SS.f`
    Subseconds,
}

/// The pattern of a timestamp with an offset whose text is `len` bytes long,
/// has (`has_t`) or has not a `T` as its eleventh character, and has
/// (`has_z`) or has not a `Z` as its last. Texts of 19, 23 or 24 bytes without
/// a `Z` carry no offset and are read as UTC.
pub open spec fn offset_date_time_pattern(len: int, has_t: bool, has_z: bool) -> Option<
    DateTimePattern,
> {
    if len == 29 && !has_t && !has_z {
        Some(DateTimePattern::OffsetSubseconds)
    } else if len == 29 && has_t && !has_z {
        Some(DateTimePattern::OffsetTSubseconds)
    } else if len == 26 && !has_t && !has_z {
        Some(DateTimePattern::Legacy)
    } else if len == 25 && !has_t && !has_z {
        Some(DateTimePattern::Offset)
    } else if len == 25 && has_t && !has_z {
        Some(DateTimePattern::OffsetT)
    } else if len == 24 && !has_t && has_z {
        Some(DateTimePattern::SubsecondsZ)
    } else if len == 24 && has_t && has_z {
        Some(DateTimePattern::TSubsecondsZ)
    } else if len == 24 && has_t && !has_z {
        Some(DateTimePattern::TSubseconds)
    } else if len == 23 && !has_t && !has_z {
        Some(DateTimePattern::Subseconds)
    } else if len == 23 && has_t && !has_z {
        Some(DateTimePattern::TSubseconds)
    } else if len == 20 && !has_t && has_z {
        Some(DateTimePattern::PlainZ)
    } else if len == 20 && has_t && has_z {
        Some(DateTimePattern::TZ)
    } else if len == 19 && !has_t && !has_z {
        Some(DateTimePattern::Plain)
    } else if len == 19 && has_t && !has_z {
        Some(DateTimePattern::T)
    } else {
        None
    }
}

/// The pattern of a timestamp without an offset, from the same three
/// observations. A `Z` at the end is accepted and means nothing.
pub open spec fn primitive_date_time_pattern(len: int, has_t: bool, has_z: bool) -> Option<
    DateTimePattern,
> {
    if len == 20 && has_t && has_z {
        Some(DateTimePattern::TZ)
    } else if len == 19 && has_t && !has_z {
        Some(DateTimePattern::T)
    } else if len == 20 && !has_t && has_z {
        Some(DateTimePattern::PlainZ)
    } else if len == 19 && !has_t && !has_z {
        Some(DateTimePattern::Plain)
    } else if len == 24 && has_t && has_z {
        Some(DateTimePattern::TSubsecondsZ)
    } else if len == 23 && has_t && !has_z {
        Some(DateTimePattern::TSubseconds)
    } else if len == 24 && !has_t && has_z {
        Some(DateTimePattern::SubsecondsZ)
    } else if len == 23 && !has_t && !has_z {
        Some(DateTimePattern::Subseconds)
    } else {
        None
    }
}

/// The pattern of a time of day whose text is `len` bytes long.
pub open spec fn time_pattern(len: int) -> Option<TimePattern> {
    if len == 5 {
        Some(TimePattern::HourMinute)
    } else if len == 8 {
        Some(TimePattern::Seconds)
    } else if 10 <= len <= 12 {
        Some(TimePattern::Subseconds)
    } else {
        None
    }
}

/// Selects the pattern of a timestamp with an offset.
pub fn classify_offset_date_time(len: usize, has_t: bool, has_z: bool) -> (pattern: Option<
    DateTimePattern,
>)
    ensures
        pattern == offset_date_time_pattern(len as int, has_t, has_z),
{
    match (len, has_t, has_z) {
        (29, false, false) => Some(DateTimePattern::OffsetSubseconds),
        (29, true, false) => Some(DateTimePattern::OffsetTSubseconds),
        (26, false, false) => Some(DateTimePattern::Legacy),
        (25, false, false) => Some(DateTimePattern::Offset),
        (25, true, false) => Some(DateTimePattern::OffsetT),
        (24, false, true) => Some(DateTimePattern::SubsecondsZ),
        (24, true, true) => Some(DateTimePattern::TSubsecondsZ),
        (24, true, false) => Some(DateTimePattern::TSubseconds),
        (23, false, false) => Some(DateTimePattern::Subseconds),
        (23, true, false) => Some(DateTimePattern::TSubseconds),
        (20, false, true) => Some(DateTimePattern::PlainZ),
        (20, true, true) => Some(DateTimePattern::TZ),
        (19, false, false) => Some(DateTimePattern::Plain),
        (19, true, false) => Some(DateTimePattern::T),
        _ => None,
    }
}

/// Selects the pattern of a timestamp without an offset.
pub fn classify_primitive_date_time(len: usize, has_t: bool, has_z: bool) -> (pattern: Option<
    DateTimePattern,
>)
    ensures
        pattern == primitive_date_time_pattern(len as int, has_t, has_z),
{
    match (len, has_t, has_z) {
        (20, true, true) => Some(DateTimePattern::TZ),
        (19, true, false) => Some(DateTimePattern::T),
        (20, false, true) => Some(DateTimePattern::PlainZ),
        (19, false, false) => Some(DateTimePattern::Plain),
        (24, true, true) => Some(DateTimePattern::TSubsecondsZ),
        (23, true, false) => Some(DateTimePattern::TSubseconds),
        (24, false, true) => Some(DateTimePattern::SubsecondsZ),
        (23, false, false) => Some(DateTimePattern::Subseconds),
        _ => None,
    }
}

/// Selects the pattern of a time of day.
pub fn classify_time(len: usize) -> (pattern: Option<TimePattern>)
    ensures
        pattern == time_pattern(len as int),
{
    match len {
        5 => Some(TimePattern::HourMinute),
        8 => Some(TimePattern::Seconds),
        10 | 11 | 12 => Some(TimePattern::Subseconds),
        _ => None,
    }
}

/// How long a text is that `pattern` writes with `digits` digits of
/// subsecond.
pub open spec fn pattern_len(pattern: DateTimePattern, digits: nat) -> int {
    19 + (if pattern.layout().subsecond_lead is Some {
        1 + digits
    } else {
        0
    }) + (match pattern.layout().zone {
        ZoneMarker::Absent => 0int,
        ZoneMarker::Z => 1,
        ZoneMarker::Offset => 6,
        ZoneMarker::SpacedOffset => 7,
    })
}

/// Where the subsecond of a written text ends and what follows it begins.
pub open spec fn zone_start(pattern: DateTimePattern, digits: nat) -> int {
    if pattern.layout().subsecond_lead is Some {
        20 + digits as int
    } else {
        19
    }
}

/// Where the sign of the offset stands in a text that a pattern with an
/// offset writes.
pub open spec fn sign_start(pattern: DateTimePattern, digits: nat) -> int {
    if pattern.layout().zone == ZoneMarker::SpacedOffset {
        zone_start(pattern, digits) + 1
    } else {
        zone_start(pattern, digits)
    }
}

/// Whether `pattern` has an offset.
pub open spec fn has_offset(pattern: DateTimePattern) -> bool {
    pattern.layout().zone == ZoneMarker::Offset || pattern.layout().zone
        == ZoneMarker::SpacedOffset
}

/// The rows of the table of timestamps with an offset that have texts: a
/// pattern and the count of its digits of subsecond.
pub open spec fn offset_date_time_row(pattern: DateTimePattern, digits: nat) -> bool {
    match pattern {
        DateTimePattern::Legacy => false,
        DateTimePattern::TSubseconds => digits == 3 || digits == 4,
        _ => pattern.layout().subsecond_lead is Some ==> digits == 3,
    }
}

/// The rows of the table of timestamps without an offset.
pub open spec fn primitive_date_time_row(pattern: DateTimePattern, digits: nat) -> bool {
    &&& pattern.layout().zone == ZoneMarker::Absent || pattern.layout().zone == ZoneMarker::Z
    &&& pattern.layout().subsecond_lead is Some ==> digits == 3
}

/// A row's length and markers select the row's pattern.
pub proof fn lemma_rows_select_their_patterns(pattern: DateTimePattern, digits: nat)
    ensures
        offset_date_time_row(pattern, digits) ==> offset_date_time_pattern(
            pattern_len(pattern, digits),
            pattern.layout().separator == 'T',
            pattern.layout().zone == ZoneMarker::Z,
        ) == Some(pattern),
        primitive_date_time_row(pattern, digits) ==> primitive_date_time_pattern(
            pattern_len(pattern, digits),
            pattern.layout().separator == 'T',
            pattern.layout().zone == ZoneMarker::Z,
        ) == Some(pattern),
{
}

/// A pattern that is selected for a text as long as the pattern makes it
/// is one of a row, with the row's count of digits of subsecond. No text
/// that the legacy pattern writes is as long as the one that selects it.
pub proof fn lemma_selected_patterns_are_rows(len: int, has_t: bool, has_z: bool, digits: nat)
    ensures
        offset_date_time_pattern(len, has_t, has_z) is Some && len == pattern_len(
            offset_date_time_pattern(len, has_t, has_z)->0,
            digits,
        ) && 1 <= digits ==> offset_date_time_row(
            offset_date_time_pattern(len, has_t, has_z)->0,
            digits,
        ),
        primitive_date_time_pattern(len, has_t, has_z) is Some && len == pattern_len(
            primitive_date_time_pattern(len, has_t, has_z)->0,
            digits,
        ) ==> primitive_date_time_row(primitive_date_time_pattern(len, has_t, has_z)->0, digits),
{
}

} // verus!
