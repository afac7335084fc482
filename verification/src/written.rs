//! What is written is read: each part of a written text is read, from where
//! it stands, as the part of the value that it writes.

use vstd::prelude::*;
use vstd::utf8::{encode_utf8, is_ascii_chars, is_ascii_chars_encode_utf8};
use crate::calendar::Date;
use crate::clock::{Time, UtcOffset};
use crate::codec::has_z;
use crate::datetime::{OffsetDateTime, PrimitiveDateTime};
use crate::digits::{
    decimal, digit_char, digit_run, has_char, is_digit, lemma_decimal_len,
    lemma_digit_run_prefix, lemma_digits_at_decimal, lemma_pow10_values, pow10,
};
use crate::error::ParseError;
use crate::format::{pattern_len, zone_start, DateTimePattern, ZoneMarker};
use crate::parse::{clock_at, date_at, date_time_of, field_at, offset_at, subsecond_at};
use crate::render::{
    clock_text, date_text, date_time_text_as, offset_text, size_of, subsecond_part,
    subsecond_text, writes_all, written_exactly, zone_part,
};

verus! {

/// A text of ASCII is as long in bytes as in characters.
pub proof fn lemma_ascii_byte_len(text: Seq<char>)
    requires
        is_ascii_chars(text),
    ensures
        encode_utf8(text).len() == text.len(),
{
    is_ascii_chars_encode_utf8(text);
}

/// `decimal` writes digits.
pub proof fn lemma_decimal_is_digits(v: int, n: nat)
    requires
        0 <= v,
    ensures
        decimal(v, n).len() == n,
        forall|i: int| 0 <= i < n ==> is_digit(#[trigger] decimal(v, n)[i]),
    decreases n,
{
    lemma_decimal_len(v, n);
    if n > 0 {
        lemma_decimal_is_digits(v / 10, (n - 1) as nat);
        lemma_decimal_len(v / 10, (n - 1) as nat);
        assert(is_digit(digit_char(v % 10)));
    }
}

/// A field that is written at `at` in `n` digits is read there.
pub proof fn lemma_field_is_read(
    s: Seq<char>,
    at: int,
    inner: Seq<char>,
    from: int,
    v: int,
    n: nat,
    low: int,
    high: int,
)
    requires
        0 <= low <= v <= high,
        v < pow10(n),
        0 <= from,
        from + n <= inner.len(),
        0 <= at,
        at + inner.len() <= s.len(),
        s.subrange(at, at + inner.len()) == inner,
        inner.subrange(from, from + n) == decimal(v, n),
    ensures
        field_at(s, at + from, n, low, high) == Some(v),
{
    assert(s.subrange(at + from, at + from + n) =~= s.subrange(at, at + inner.len()).subrange(
        from,
        from + n,
    ));
    lemma_digits_at_decimal(s, at + from, v, n);
}

/// A mark that is written at `at` stands there.
pub proof fn lemma_mark_is_there(s: Seq<char>, at: int, inner: Seq<char>, from: int, c: char)
    requires
        0 <= from < inner.len(),
        0 <= at,
        at + inner.len() <= s.len(),
        s.subrange(at, at + inner.len()) == inner,
        inner[from] == c,
    ensures
        has_char(s, at + from, c),
{
    assert(s.subrange(at, at + inner.len())[from] == s[at + from]);
}

/// A date that can be written is read from where it is written.
pub proof fn lemma_date_is_read(s: Seq<char>, at: int, date: Date)
    requires
        date.unwritable() is None,
        0 <= at,
        at + 10 <= s.len(),
        s.subrange(at, at + 10) == date_text(date),
    ensures
        date_at(s, at) == Ok::<Date, crate::error::ParseError>(date),
        date_text(date).len() == 10,
{
    let t = date_text(date);
    lemma_decimal_len(date.year as int, 4);
    lemma_decimal_len(date.month as int, 2);
    lemma_decimal_len(date.day as int, 2);
    lemma_pow10_values();
    assert(t.len() == 10);
    assert(t.subrange(0, 4) =~= decimal(date.year as int, 4));
    assert(t.subrange(5, 7) =~= decimal(date.month as int, 2));
    assert(t.subrange(8, 10) =~= decimal(date.day as int, 2));
    assert(t[4] == '-');
    assert(t[7] == '-');
    lemma_field_is_read(s, at, t, 0, date.year as int, 4, 0, 9999);
    lemma_field_is_read(s, at, t, 5, date.month as int, 2, 1, 12);
    lemma_field_is_read(s, at, t, 8, date.day as int, 2, 1, 31);
    lemma_mark_is_there(s, at, t, 4, '-');
    lemma_mark_is_there(s, at, t, 7, '-');
}

/// The hour, minute and second of a valid time of day are read from where
/// they are written.
pub proof fn lemma_clock_is_read(s: Seq<char>, at: int, time: Time)
    requires
        time.is_valid(),
        0 <= at,
        at + 8 <= s.len(),
        s.subrange(at, at + 8) == clock_text(time),
    ensures
        clock_at(s, at, true) == Ok::<Time, crate::error::ParseError>(
            Time { hour: time.hour, minute: time.minute, second: time.second, nanosecond: 0 },
        ),
        clock_text(time).len() == 8,
{
    let t = clock_text(time);
    lemma_decimal_len(time.hour as int, 2);
    lemma_decimal_len(time.minute as int, 2);
    lemma_decimal_len(time.second as int, 2);
    lemma_pow10_values();
    assert(t.len() == 8);
    assert(t.subrange(0, 2) =~= decimal(time.hour as int, 2));
    assert(t.subrange(3, 5) =~= decimal(time.minute as int, 2));
    assert(t.subrange(6, 8) =~= decimal(time.second as int, 2));
    assert(t[2] == ':');
    assert(t[5] == ':');
    lemma_field_is_read(s, at, t, 0, time.hour as int, 2, 0, 23);
    lemma_field_is_read(s, at, t, 3, time.minute as int, 2, 0, 59);
    lemma_field_is_read(s, at, t, 6, time.second as int, 2, 0, 59);
    lemma_mark_is_there(s, at, t, 2, ':');
    lemma_mark_is_there(s, at, t, 5, ':');
}

/// An hour and a minute are read from where they are written.
pub proof fn lemma_hour_minute_is_read(s: Seq<char>, time: Time)
    requires
        time.is_valid(),
        s == decimal(time.hour as int, 2) + seq![':'] + decimal(time.minute as int, 2),
    ensures
        s.len() == 5,
        is_ascii_chars(s),
        clock_at(s, 0, false) == Ok::<Time, ParseError>(
            Time { hour: time.hour, minute: time.minute, second: 0, nanosecond: 0 },
        ),
{
    lemma_decimal_is_digits(time.hour as int, 2);
    lemma_decimal_is_digits(time.minute as int, 2);
    lemma_pow10_values();
    assert(s.subrange(0, 2) =~= decimal(time.hour as int, 2));
    assert(s.subrange(3, 5) =~= decimal(time.minute as int, 2));
    assert(s[2] == ':');
    lemma_digits_at_decimal(s, 0, time.hour as int, 2);
    lemma_digits_at_decimal(s, 3, time.minute as int, 2);
    assert forall|i: int| 0 <= i < s.len() implies '\0' <= #[trigger] s[i] <= '\u{7f}' by {
        if i < 2 {
            assert(s[i] == decimal(time.hour as int, 2)[i]);
        } else if i > 2 {
            assert(s[i] == decimal(time.minute as int, 2)[i - 3]);
        }
    }
}

/// A valid offset is read from where it is written.
pub proof fn lemma_offset_is_read(s: Seq<char>, at: int, offset: UtcOffset)
    requires
        offset.is_valid(),
        0 <= at,
        at + 6 <= s.len(),
        s.subrange(at, at + 6) == offset_text(offset),
    ensures
        offset_at(s, at) == Ok::<UtcOffset, crate::error::ParseError>(offset),
        offset_text(offset).len() == 6,
{
    let t = offset_text(offset);
    let hours = size_of(offset.hours as int);
    let minutes = size_of(offset.minutes as int);
    lemma_decimal_len(hours, 2);
    lemma_decimal_len(minutes, 2);
    lemma_pow10_values();
    assert(t.len() == 6);
    assert(t.subrange(1, 3) =~= decimal(hours, 2));
    assert(t.subrange(4, 6) =~= decimal(minutes, 2));
    assert(t[3] == ':');
    lemma_field_is_read(s, at, t, 1, hours, 2, 0, 25);
    lemma_field_is_read(s, at, t, 4, minutes, 2, 0, 59);
    lemma_mark_is_there(s, at, t, 3, ':');
    if offset.hours < 0 || offset.minutes < 0 {
        lemma_mark_is_there(s, at, t, 0, '-');
    } else {
        lemma_mark_is_there(s, at, t, 0, '+');
    }
}

/// The digits that write a subsecond exactly are its number without the
/// zeros that follow them.
pub proof fn lemma_exact_digits(nanosecond: int, digits: nat)
    requires
        0 <= nanosecond < 1_000_000_000,
        written_exactly(nanosecond, digits),
    ensures
        0 <= nanosecond / pow10((9 - digits) as nat) < pow10(digits),
        (nanosecond / pow10((9 - digits) as nat)) * pow10((9 - digits) as nat) == nanosecond,
{
    lemma_pow10_values();
    if digits == 1 {
        assert(nanosecond / 100_000_000 * 100_000_000 == nanosecond);
    } else if digits == 2 {
        assert(nanosecond / 10_000_000 * 10_000_000 == nanosecond);
    } else if digits == 3 {
        assert(nanosecond / 1_000_000 * 1_000_000 == nanosecond);
    } else if digits == 4 {
        assert(nanosecond / 100_000 * 100_000 == nanosecond);
    } else if digits == 5 {
        assert(nanosecond / 10_000 * 10_000 == nanosecond);
    } else if digits == 6 {
        assert(nanosecond / 1_000 * 1_000 == nanosecond);
    } else if digits == 7 {
        assert(nanosecond / 100 * 100 == nanosecond);
    } else if digits == 8 {
        assert(nanosecond / 10 * 10 == nanosecond);
    } else {
        assert(nanosecond / 1 * 1 == nanosecond);
    }
}

/// The digits of a subsecond that they write exactly, put at `at` in a text
/// and followed by no further digit, are read as that subsecond.
pub proof fn lemma_subsecond_is_read(s: Seq<char>, at: int, nanosecond: int, digits: nat)
    requires
        0 <= nanosecond < 1_000_000_000,
        written_exactly(nanosecond, digits),
        0 <= at,
        at + digits <= s.len(),
        s.subrange(at, at + digits) == subsecond_text(nanosecond, digits),
        at + digits == s.len() || !is_digit(s[at + digits]),
    ensures
        digit_run(s, at) == digits,
        subsecond_at(s, at) == Ok::<int, ParseError>(nanosecond),
        forall|j: int| at <= j < at + digits ==> is_digit(#[trigger] s[j]),
{
    let written = nanosecond / pow10((9 - digits) as nat);
    lemma_exact_digits(nanosecond, digits);
    lemma_decimal_is_digits(written, digits);
    assert forall|j: int| at <= j < at + digits implies is_digit(#[trigger] s[j]) by {
        assert(s[j] == s.subrange(at, at + digits)[j - at]);
    }
    lemma_digit_run_prefix(s, at, digits);
    lemma_digits_at_decimal(s, at, written, digits);
}

/// The text of a date that can be written: ten characters of ASCII.
pub proof fn lemma_date_text_shape(date: Date)
    requires
        date.unwritable() is None,
    ensures
        date_text(date).len() == 10,
        is_ascii_chars(date_text(date)),
{
    lemma_decimal_is_digits(date.year as int, 4);
    lemma_decimal_is_digits(date.month as int, 2);
    lemma_decimal_is_digits(date.day as int, 2);
    let t = date_text(date);
    assert forall|i: int| 0 <= i < t.len() implies '\0' <= #[trigger] t[i] <= '\u{7f}' by {
        if i < 4 {
            assert(t[i] == decimal(date.year as int, 4)[i]);
        } else if i == 4 {
        } else if i < 7 {
            assert(t[i] == decimal(date.month as int, 2)[i - 5]);
        } else if i == 7 {
        } else {
            assert(t[i] == decimal(date.day as int, 2)[i - 8]);
        }
    }
}

/// The hour, minute and second of a valid time of day as text: eight
/// characters of ASCII, the last one a digit.
pub proof fn lemma_clock_text_shape(time: Time)
    requires
        time.is_valid(),
    ensures
        clock_text(time).len() == 8,
        is_ascii_chars(clock_text(time)),
        is_digit(clock_text(time)[7]),
{
    lemma_decimal_is_digits(time.hour as int, 2);
    lemma_decimal_is_digits(time.minute as int, 2);
    lemma_decimal_is_digits(time.second as int, 2);
    let t = clock_text(time);
    assert forall|i: int| 0 <= i < t.len() implies '\0' <= #[trigger] t[i] <= '\u{7f}' by {
        if i < 2 {
            assert(t[i] == decimal(time.hour as int, 2)[i]);
        } else if i == 2 {
        } else if i < 5 {
            assert(t[i] == decimal(time.minute as int, 2)[i - 3]);
        } else if i == 5 {
        } else {
            assert(t[i] == decimal(time.second as int, 2)[i - 6]);
        }
    }
    assert(t[7] == decimal(time.second as int, 2)[1]);
}

/// A valid offset as text: six characters of ASCII, the last one a digit.
pub proof fn lemma_offset_text_shape(offset: UtcOffset)
    requires
        offset.is_valid(),
    ensures
        offset_text(offset).len() == 6,
        is_ascii_chars(offset_text(offset)),
        is_digit(offset_text(offset)[5]),
{
    let hours = size_of(offset.hours as int);
    let minutes = size_of(offset.minutes as int);
    lemma_decimal_is_digits(hours, 2);
    lemma_decimal_is_digits(minutes, 2);
    let t = offset_text(offset);
    assert forall|i: int| 0 <= i < t.len() implies '\0' <= #[trigger] t[i] <= '\u{7f}' by {
        if i == 0 {
        } else if i < 3 {
            assert(t[i] == decimal(hours, 2)[i - 1]);
        } else if i == 3 {
        } else {
            assert(t[i] == decimal(minutes, 2)[i - 4]);
        }
    }
    assert(t[5] == decimal(minutes, 2)[1]);
}

/// The date, the separator and the time of day are read from the first
/// nineteen characters of a text that begins with them.
pub proof fn lemma_head_is_read(s: Seq<char>, value: PrimitiveDateTime, separator: char)
    requires
        value.unwritable() is None,
        '\0' <= separator <= '\u{7f}',
        19 <= s.len(),
        s.subrange(0, 19) == date_text(value.date) + seq![separator] + clock_text(value.time),
    ensures
        date_at(s, 0) == Ok::<crate::calendar::Date, ParseError>(value.date),
        has_char(s, 10, separator),
        clock_at(s, 11, true) == Ok::<Time, ParseError>(value.without_subsecond().time),
        is_digit(s[18]),
        forall|j: int| 0 <= j < 19 ==> '\0' <= #[trigger] s[j] <= '\u{7f}',
{
    let head = date_text(value.date) + seq![separator] + clock_text(value.time);
    lemma_date_text_shape(value.date);
    lemma_clock_text_shape(value.time);
    assert(head.len() == 19);
    assert forall|j: int| 0 <= j < 19 implies s[j] == head[j] by {
        assert(s.subrange(0, 19)[j] == s[j]);
    }
    assert(s.subrange(0, 10) =~= date_text(value.date));
    assert(s.subrange(11, 19) =~= clock_text(value.time));
    lemma_date_is_read(s, 0, value.date);
    lemma_clock_is_read(s, 11, value.time);
    assert(s[18] == clock_text(value.time)[7]);
    assert forall|j: int| 0 <= j < 19 implies '\0' <= #[trigger] s[j] <= '\u{7f}' by {
        assert(s[j] == head[j]);
        if j < 10 {
            assert(head[j] == date_text(value.date)[j]);
        } else if j > 10 {
            assert(head[j] == clock_text(value.time)[j - 11]);
        }
    }
}

/// What a pattern writes after the subsecond is read from the end of a text:
/// the text ends with it, it does not begin with a digit, and only a `Z`
/// makes the text end in `Z`.
pub proof fn lemma_zone_is_read(s: Seq<char>, at: int, zone: ZoneMarker, offset: UtcOffset)
    requires
        offset.is_valid(),
        0 < at <= s.len(),
        is_digit(s[at - 1]),
        s.subrange(at, s.len() as int) == zone_part(zone, offset),
    ensures
        zone == ZoneMarker::Absent ==> s.len() == at,
        zone == ZoneMarker::Z ==> s.len() == at + 1 && has_char(s, at, 'Z'),
        zone == ZoneMarker::Offset ==> s.len() == at + 6 && offset_at(s, at) == Ok::<
            UtcOffset,
            ParseError,
        >(offset),
        zone == ZoneMarker::SpacedOffset ==> s.len() == at + 7 && has_char(s, at, ' ')
            && offset_at(s, at + 1) == Ok::<UtcOffset, ParseError>(offset),
        at == s.len() || !is_digit(s[at]),
        has_z(s) == (zone == ZoneMarker::Z),
        forall|j: int| at <= j < s.len() ==> '\0' <= #[trigger] s[j] <= '\u{7f}',
{
    let part = zone_part(zone, offset);
    let tail = offset_text(offset);
    lemma_offset_text_shape(offset);
    assert(s.len() == at + part.len());
    assert forall|j: int| at <= j < s.len() implies s[j] == part[j - at] by {
        assert(s.subrange(at, s.len() as int)[j - at] == s[j]);
    }
    if zone == ZoneMarker::Z {
        assert(s[at] == part[0]);
    } else if zone == ZoneMarker::Offset {
        assert(s[at] == part[0]);
        assert(s[at + 5] == part[5]);
        lemma_offset_is_read(s, at, offset);
    } else if zone == ZoneMarker::SpacedOffset {
        assert(s[at] == part[0]);
        assert(s[at + 6] == part[6]);
        assert(s.subrange(at + 1, at + 7) =~= tail);
        lemma_offset_is_read(s, at + 1, offset);
    }
    assert forall|j: int| at <= j < s.len() implies '\0' <= #[trigger] s[j] <= '\u{7f}' by {
        assert(s[j] == part[j - at]);
        if zone == ZoneMarker::SpacedOffset && j > at {
            assert(part[j - at] == tail[j - at - 1]);
        }
    }
}

/// The parts of a text that a pattern writes, each at its place.
pub proof fn lemma_written_parts(value: OffsetDateTime, pattern: DateTimePattern, digits: nat)
    requires
        writes_all(pattern, value, digits),
    ensures
        ({
            let text = date_time_text_as(value, pattern, digits);
            let layout = pattern.layout();
            let nanos = value.date_time.time.nanosecond as int;
            let zone_at = zone_start(pattern, digits);
            &&& text.len() == pattern_len(pattern, digits)
            &&& 19 <= zone_at <= text.len()
            &&& text.subrange(0, 19) == date_text(value.date_time.date) + seq![layout.separator]
                + clock_text(value.date_time.time)
            &&& layout.subsecond_lead is Some ==> text[19] == layout.subsecond_lead->0
                && text.subrange(20, zone_at) == subsecond_text(nanos, digits)
            &&& text.subrange(zone_at, text.len() as int) == zone_part(layout.zone, value.offset)
        }),
{
    let layout = pattern.layout();
    let text = date_time_text_as(value, pattern, digits);
    let nanos = value.date_time.time.nanosecond as int;
    let head = date_text(value.date_time.date) + seq![layout.separator] + clock_text(
        value.date_time.time,
    );
    let fraction = subsecond_part(layout.subsecond_lead, nanos, digits);
    let zone = zone_part(layout.zone, value.offset);
    lemma_date_text_shape(value.date_time.date);
    lemma_clock_text_shape(value.date_time.time);
    lemma_offset_text_shape(value.offset);
    assert(head.len() == 19);
    if layout.subsecond_lead is Some {
        lemma_exact_digits(nanos, digits);
        lemma_decimal_is_digits(nanos / pow10((9 - digits) as nat), digits);
        assert(fraction.len() == 1 + digits);
    } else {
        assert(fraction.len() == 0);
    }
    let zone_at = zone_start(pattern, digits);
    assert(text =~= head + fraction + zone);
    assert(text.subrange(0, 19) =~= head);
    assert(text.subrange(19, zone_at) =~= fraction);
    assert(text.subrange(zone_at, text.len() as int) =~= zone);
    if layout.subsecond_lead is Some {
        assert(text[19] == fraction[0]);
        assert(text.subrange(20, zone_at) =~= fraction.subrange(1, 1 + digits as int));
        assert(fraction.subrange(1, 1 + digits as int) =~= subsecond_text(nanos, digits));
    }
}

/// A text whose parts are read as the parts of `value` is read as `value`.
pub proof fn lemma_read_from_parts(
    s: Seq<char>,
    pattern: DateTimePattern,
    value: OffsetDateTime,
    digits: nat,
)
    requires
        writes_all(pattern, value, digits),
        date_at(s, 0) == Ok::<crate::calendar::Date, ParseError>(value.date_time.date),
        has_char(s, 10, pattern.layout().separator),
        clock_at(s, 11, true) == Ok::<Time, ParseError>(value.date_time.without_subsecond().time),
        pattern.layout().subsecond_lead is Some ==> has_char(
            s,
            19,
            pattern.layout().subsecond_lead->0,
        ) && digit_run(s, 20) == digits && subsecond_at(s, 20) == Ok::<int, ParseError>(
            value.date_time.time.nanosecond as int,
        ),
        pattern.layout().zone == ZoneMarker::Absent ==> s.len() == zone_start(pattern, digits),
        pattern.layout().zone == ZoneMarker::Z ==> s.len() == zone_start(pattern, digits) + 1
            && has_char(s, zone_start(pattern, digits), 'Z'),
        pattern.layout().zone == ZoneMarker::Offset ==> s.len() == zone_start(pattern, digits) + 6
            && offset_at(s, zone_start(pattern, digits)) == Ok::<UtcOffset, ParseError>(
            value.offset,
        ),
        pattern.layout().zone == ZoneMarker::SpacedOffset ==> s.len() == zone_start(
            pattern,
            digits,
        ) + 7 && has_char(s, zone_start(pattern, digits), ' ') && offset_at(
            s,
            zone_start(pattern, digits) + 1,
        ) == Ok::<UtcOffset, ParseError>(value.offset),
    ensures
        date_time_of(s, pattern) == Ok::<OffsetDateTime, ParseError>(value),
{
}

} // verus!
