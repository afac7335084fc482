//! What holds of the codec as a whole: what is written is read back, what
//! was read is read again, and every row of the tables but one has texts.

use vstd::prelude::*;
use vstd::utf8::is_ascii_chars;
use crate::calendar::Date;
use crate::clock::Time;
use crate::codec::{
    byte_len, decoded_date, decoded_offset_date_time, decoded_primitive_date_time, decoded_time,
    encoded_date, encoded_offset_date_time, encoded_primitive_date_time, encoded_time, has_t,
    has_z,
};
use crate::datetime::{OffsetDateTime, PrimitiveDateTime};
use crate::digits::{
    digit_run, fraction_digits, fraction_value, is_digit, lemma_digit_run_prefix,
    lemma_digits_at_decimal, lemma_milliseconds_are_short, lemma_pow10_values,
    lemma_shortest_fraction, pow10, shortest_fraction,
};
use crate::error::{FormatErrorKind, ParseError};
use crate::format::{
    has_offset, lemma_rows_select_their_patterns, lemma_selected_patterns_are_rows,
    offset_date_time_pattern,
    offset_date_time_row, pattern_len, primitive_date_time_pattern, primitive_date_time_row,
    sign_start, time_pattern, zone_start, DateTimePattern, TimePattern, ZoneMarker,
};
use crate::parse::{date_of, date_time_of, subsecond_at};
use crate::read::{
    lemma_read_date_is_writable, lemma_read_date_shape, lemma_read_date_text,
    lemma_read_date_time_is_writable, lemma_read_date_time_shape, lemma_read_date_time_text,
    lemma_minus_before_zero, lemma_read_time_shape, lemma_read_time_text,
};
use crate::render::{
    clock_text, date_text, date_time_text_as, is_written_as, offset_date_time_text,
    primitive_date_time_text, subsecond_text, time_text, time_text_as, writes_all,
    written_exactly,
};
use crate::written::{
    lemma_ascii_byte_len, lemma_clock_is_read, lemma_clock_text_shape, lemma_date_is_read,
    lemma_date_text_shape, lemma_decimal_is_digits, lemma_exact_digits, lemma_head_is_read,
    lemma_hour_minute_is_read, lemma_read_from_parts, lemma_subsecond_is_read,
    lemma_written_parts, lemma_zone_is_read,
};

verus! {

/// A date that is written is read back as it was.
pub proof fn lemma_date_round_trip(date: Date)
    requires
        encoded_date(date) is Ok,
    ensures
        decoded_date(encoded_date(date)->Ok_0) == Ok::<Date, FormatErrorKind>(date),
{
    let text = date_text(date);
    lemma_date_text_shape(date);
    assert(text.subrange(0, 10) =~= text);
    lemma_date_is_read(text, 0, date);
}

/// A time of day of whole milliseconds that is written is read back as it
/// was. With a finer subsecond the text is longer than any that is read.
pub proof fn lemma_time_round_trip(time: Time)
    requires
        encoded_time(time) is Ok,
        time.nanosecond % 1_000_000 == 0,
    ensures
        decoded_time(encoded_time(time)->Ok_0) == Ok::<Time, FormatErrorKind>(time),
{
    let text = time_text(time);
    let head = clock_text(time);
    let nanos = time.nanosecond as int;
    let count = fraction_digits(nanos, 9);
    let written = fraction_value(nanos, 9);
    let tail = shortest_fraction(nanos, 9);
    lemma_pow10_values();
    lemma_shortest_fraction(nanos, 9);
    lemma_milliseconds_are_short(nanos);
    lemma_decimal_is_digits(written, count);
    lemma_clock_text_shape(time);
    assert(text.len() == 9 + count);
    assert(text.subrange(0, 8) =~= head);
    assert(text[8] == '.');
    assert(text.subrange(9, 9 + count as int) =~= tail);
    assert forall|i: int| 0 <= i < text.len() implies '\0' <= #[trigger] text[i] <= '\u{7f}' by {
        if i < 8 {
            assert(text[i] == head[i]);
        } else if i == 8 {
        } else {
            assert(text[i] == tail[i - 9]);
        }
    }
    lemma_ascii_byte_len(text);
    lemma_clock_is_read(text, 0, time);
    assert forall|j: int| 9 <= j < 9 + count implies is_digit(#[trigger] text[j]) by {
        assert(text[j] == tail[j - 9]);
    }
    lemma_digit_run_prefix(text, 9, count);
    assert(digit_run(text, 9) == count);
    lemma_digits_at_decimal(text, 9, written, count);
    assert(subsecond_at(text, 9) == Ok::<int, crate::error::ParseError>(nanos));
}

/// A timestamp without an offset that is written is read back at the start
/// of its second: the subsecond is not written.
pub proof fn lemma_primitive_date_time_written_and_read(value: PrimitiveDateTime)
    requires
        encoded_primitive_date_time(value) is Ok,
    ensures
        decoded_primitive_date_time(encoded_primitive_date_time(value)->Ok_0) == Ok::<
            PrimitiveDateTime,
            FormatErrorKind,
        >(value.without_subsecond()),
{
    let shown = value.without_subsecond();
    assert(primitive_date_time_text(value) =~= date_time_text_as(
        shown.at_utc(),
        DateTimePattern::Plain,
        0,
    ));
    lemma_primitive_date_time_rows_are_read(shown, DateTimePattern::Plain, 0);
}

/// A timestamp without an offset and without a subsecond that is written is
/// read back as it was.
pub proof fn lemma_primitive_date_time_round_trip(value: PrimitiveDateTime)
    requires
        encoded_primitive_date_time(value) is Ok,
        value.time.nanosecond == 0,
    ensures
        decoded_primitive_date_time(encoded_primitive_date_time(value)->Ok_0) == Ok::<
            PrimitiveDateTime,
            FormatErrorKind,
        >(value),
{
    lemma_primitive_date_time_written_and_read(value);
}

/// A timestamp with an offset that is written is read back at the start of
/// its second, with its offset: the subsecond is not written.
pub proof fn lemma_offset_date_time_written_and_read(value: OffsetDateTime)
    requires
        encoded_offset_date_time(value) is Ok,
    ensures
        decoded_offset_date_time(encoded_offset_date_time(value)->Ok_0) == Ok::<
            OffsetDateTime,
            FormatErrorKind,
        >(value.without_subsecond()),
{
    let shown = value.without_subsecond();
    assert(offset_date_time_text(value) =~= date_time_text_as(shown, DateTimePattern::Offset, 0));
    lemma_offset_date_time_rows_are_read(shown, DateTimePattern::Offset, 0);
}

/// A timestamp with an offset and without a subsecond that is written is
/// read back as it was.
pub proof fn lemma_offset_date_time_round_trip(value: OffsetDateTime)
    requires
        encoded_offset_date_time(value) is Ok,
        value.date_time.time.nanosecond == 0,
    ensures
        decoded_offset_date_time(encoded_offset_date_time(value)->Ok_0) == Ok::<
            OffsetDateTime,
            FormatErrorKind,
        >(value),
{
    lemma_offset_date_time_written_and_read(value);
}

/// A date that was read, written and read again is the date that was read
/// first.
pub proof fn lemma_date_read_again(text: Seq<char>)
    requires
        decoded_date(text) is Ok,
    ensures
        encoded_date(decoded_date(text)->Ok_0) is Ok,
        decoded_date(encoded_date(decoded_date(text)->Ok_0)->Ok_0) == decoded_date(text),
{
    lemma_read_date_is_writable(text);
    lemma_date_round_trip(decoded_date(text)->Ok_0);
}

/// A time of day that was read, written and read again is the time of day
/// that was read first.
pub proof fn lemma_time_read_again(text: Seq<char>)
    requires
        decoded_time(text) is Ok,
    ensures
        encoded_time(decoded_time(text)->Ok_0) is Ok,
        decoded_time(encoded_time(decoded_time(text)->Ok_0)->Ok_0) == decoded_time(text),
{
    let pattern = crate::format::time_pattern(byte_len(text))->0;
    lemma_read_time_shape(text, pattern);
    lemma_ascii_byte_len(text);
    lemma_time_round_trip(decoded_time(text)->Ok_0);
}

/// A timestamp without an offset that was read can be written, and read
/// again it is the timestamp that was read first at the start of its
/// second.
pub proof fn lemma_primitive_date_time_read_and_written(text: Seq<char>)
    requires
        decoded_primitive_date_time(text) is Ok,
    ensures
        encoded_primitive_date_time(decoded_primitive_date_time(text)->Ok_0) is Ok,
        decoded_primitive_date_time(
            encoded_primitive_date_time(decoded_primitive_date_time(text)->Ok_0)->Ok_0,
        ) == Ok::<PrimitiveDateTime, FormatErrorKind>(
            decoded_primitive_date_time(text)->Ok_0.without_subsecond(),
        ),
{
    let pattern = crate::format::primitive_date_time_pattern(
        byte_len(text),
        has_t(text),
        has_z(text),
    )->0;
    lemma_read_date_time_is_writable(text, pattern);
    lemma_primitive_date_time_written_and_read(decoded_primitive_date_time(text)->Ok_0);
}

/// A timestamp without an offset that was read without a subsecond, written
/// and read again is the timestamp that was read first.
pub proof fn lemma_primitive_date_time_read_again(text: Seq<char>)
    requires
        decoded_primitive_date_time(text) is Ok,
        decoded_primitive_date_time(text)->Ok_0.time.nanosecond == 0,
    ensures
        encoded_primitive_date_time(decoded_primitive_date_time(text)->Ok_0) is Ok,
        decoded_primitive_date_time(
            encoded_primitive_date_time(decoded_primitive_date_time(text)->Ok_0)->Ok_0,
        ) == decoded_primitive_date_time(text),
{
    lemma_primitive_date_time_read_and_written(text);
}

/// A timestamp with an offset that was read can be written, and read again
/// it is the timestamp that was read first at the start of its second.
pub proof fn lemma_offset_date_time_read_and_written(text: Seq<char>)
    requires
        decoded_offset_date_time(text) is Ok,
    ensures
        encoded_offset_date_time(decoded_offset_date_time(text)->Ok_0) is Ok,
        decoded_offset_date_time(
            encoded_offset_date_time(decoded_offset_date_time(text)->Ok_0)->Ok_0,
        ) == Ok::<OffsetDateTime, FormatErrorKind>(
            decoded_offset_date_time(text)->Ok_0.without_subsecond(),
        ),
{
    let pattern = crate::format::offset_date_time_pattern(
        byte_len(text),
        has_t(text),
        has_z(text),
    )->0;
    lemma_read_date_time_is_writable(text, pattern);
    lemma_offset_date_time_written_and_read(decoded_offset_date_time(text)->Ok_0);
}

/// A timestamp with an offset that was read without a subsecond, written and
/// read again is the timestamp that was read first.
pub proof fn lemma_offset_date_time_read_again(text: Seq<char>)
    requires
        decoded_offset_date_time(text) is Ok,
        decoded_offset_date_time(text)->Ok_0.date_time.time.nanosecond == 0,
    ensures
        encoded_offset_date_time(decoded_offset_date_time(text)->Ok_0) is Ok,
        decoded_offset_date_time(
            encoded_offset_date_time(decoded_offset_date_time(text)->Ok_0)->Ok_0,
        ) == decoded_offset_date_time(text),
{
    lemma_offset_date_time_read_and_written(text);
}

/// What a pattern writes of a timestamp, it reads as that timestamp, where
/// it writes all of it. The text is of ASCII, as long as the pattern makes
/// it, and has the markers of the pattern.
pub proof fn lemma_pattern_reads_what_it_writes(
    value: OffsetDateTime,
    pattern: DateTimePattern,
    digits: nat,
)
    requires
        writes_all(pattern, value, digits),
    ensures
        date_time_of(date_time_text_as(value, pattern, digits), pattern) == Ok::<
            OffsetDateTime,
            ParseError,
        >(value),
        is_ascii_chars(date_time_text_as(value, pattern, digits)),
        date_time_text_as(value, pattern, digits).len() == pattern_len(pattern, digits),
        has_t(date_time_text_as(value, pattern, digits)) == (pattern.layout().separator == 'T'),
        has_z(date_time_text_as(value, pattern, digits)) == (pattern.layout().zone
            == ZoneMarker::Z),
{
    let layout = pattern.layout();
    let text = date_time_text_as(value, pattern, digits);
    let nanos = value.date_time.time.nanosecond as int;
    let zone_at = zone_start(pattern, digits);
    lemma_written_parts(value, pattern, digits);
    lemma_head_is_read(text, value.date_time, layout.separator);
    assert(is_digit(text[zone_at - 1])) by {
        if layout.subsecond_lead is Some {
            lemma_exact_digits(nanos, digits);
            lemma_decimal_is_digits(nanos / pow10((9 - digits) as nat), digits);
            assert(text[zone_at - 1] == text.subrange(20, zone_at)[digits - 1]);
        }
    }
    lemma_zone_is_read(text, zone_at, layout.zone, value.offset);
    if layout.subsecond_lead is Some {
        lemma_subsecond_is_read(text, 20, nanos, digits);
    }
    lemma_read_from_parts(text, pattern, value, digits);
    assert(is_ascii_chars(text)) by {
        assert forall|i: int| 0 <= i < text.len() implies '\0' <= #[trigger] text[i]
            <= '\u{7f}' by {
            if 19 < i < zone_at {
                assert(is_digit(text[i]));
            }
        }
    }
}

/// In every row of the table of timestamps with an offset but the one of 26
/// bytes, what the row's pattern writes is decoded as what was written.
pub proof fn lemma_offset_date_time_rows_are_read(
    value: OffsetDateTime,
    pattern: DateTimePattern,
    digits: nat,
)
    requires
        writes_all(pattern, value, digits),
        offset_date_time_row(pattern, digits),
    ensures
        decoded_offset_date_time(date_time_text_as(value, pattern, digits)) == Ok::<
            OffsetDateTime,
            FormatErrorKind,
        >(value),
{
    let text = date_time_text_as(value, pattern, digits);
    lemma_pattern_reads_what_it_writes(value, pattern, digits);
    lemma_ascii_byte_len(text);
    lemma_rows_select_their_patterns(pattern, digits);
}

/// In every row of the table of timestamps without an offset, what the
/// row's pattern writes is decoded as what was written.
pub proof fn lemma_primitive_date_time_rows_are_read(
    value: PrimitiveDateTime,
    pattern: DateTimePattern,
    digits: nat,
)
    requires
        writes_all(pattern, value.at_utc(), digits),
        primitive_date_time_row(pattern, digits),
    ensures
        decoded_primitive_date_time(date_time_text_as(value.at_utc(), pattern, digits)) == Ok::<
            PrimitiveDateTime,
            FormatErrorKind,
        >(value),
{
    let text = date_time_text_as(value.at_utc(), pattern, digits);
    lemma_pattern_reads_what_it_writes(value.at_utc(), pattern, digits);
    lemma_ascii_byte_len(text);
    lemma_rows_select_their_patterns(pattern, digits);
}

/// Whether `pattern` writes all of `time` in `digits` digits of subsecond,
/// of which a row of the table has three at most.
pub open spec fn time_row(pattern: TimePattern, time: Time, digits: nat) -> bool {
    &&& time.unwritable() is None
    &&& match pattern {
        TimePattern::HourMinute => time.second == 0 && time.nanosecond == 0,
        TimePattern::Seconds => time.nanosecond == 0,
        TimePattern::Subseconds => written_exactly(time.nanosecond as int, digits) && digits <= 3,
    }
}

/// In every row of the table of times of day, what the row's pattern writes
/// is decoded as what was written.
pub proof fn lemma_time_rows_are_read(time: Time, pattern: TimePattern, digits: nat)
    requires
        time_row(pattern, time, digits),
    ensures
        decoded_time(time_text_as(time, pattern, digits)) == Ok::<Time, FormatErrorKind>(time),
{
    let text = time_text_as(time, pattern, digits);
    let head = clock_text(time);
    lemma_clock_text_shape(time);
    if pattern == TimePattern::HourMinute {
        lemma_hour_minute_is_read(text, time);
    } else if pattern == TimePattern::Seconds {
        assert(text.subrange(0, 8) =~= head);
        lemma_clock_is_read(text, 0, time);
    } else {
        let nanos = time.nanosecond as int;
        let tail = subsecond_text(nanos, digits);
        lemma_exact_digits(nanos, digits);
        lemma_decimal_is_digits(nanos / pow10((9 - digits) as nat), digits);
        assert(text.len() == 9 + digits);
        assert(text.subrange(0, 8) =~= head);
        assert(text[8] == '.');
        assert(text.subrange(9, 9 + digits as int) =~= tail);
        lemma_clock_is_read(text, 0, time);
        lemma_subsecond_is_read(text, 9, nanos, digits);
        assert forall|i: int| 0 <= i < text.len() implies '\0' <= #[trigger] text[i]
            <= '\u{7f}' by {
            if i < 8 {
                assert(text[i] == head[i]);
            } else if i > 8 {
                assert(is_digit(text[i]));
            }
        }
    }
    lemma_ascii_byte_len(text);
}

/// No text of 26 bytes is read as a timestamp: the one pattern of that row
/// writes 28 characters at least.
pub proof fn lemma_legacy_row_is_never_read(text: Seq<char>)
    requires
        byte_len(text) == 26,
    ensures
        decoded_offset_date_time(text) is Err,
{
    if date_time_of(text, DateTimePattern::Legacy) is Ok {
        lemma_read_date_time_shape(text, DateTimePattern::Legacy);
        lemma_ascii_byte_len(text);
    }
}

/// A text whose length is in no row of the table of a kind is refused for
/// that kind, as one of an unknown format; for a date, whose one pattern has
/// ten characters, as one that does not follow the pattern.
pub proof fn lemma_other_lengths_are_refused(text: Seq<char>)
    ensures
        !(byte_len(text) == 19 || byte_len(text) == 20 || byte_len(text) == 23 || byte_len(text)
            == 24 || byte_len(text) == 25 || byte_len(text) == 26 || byte_len(text) == 29)
            ==> decoded_offset_date_time(text) == Err::<OffsetDateTime, FormatErrorKind>(
            FormatErrorKind::UnknownFormat,
        ),
        !(byte_len(text) == 19 || byte_len(text) == 20 || byte_len(text) == 23 || byte_len(text)
            == 24) ==> decoded_primitive_date_time(text) == Err::<
            PrimitiveDateTime,
            FormatErrorKind,
        >(FormatErrorKind::UnknownFormat),
        !(byte_len(text) == 5 || byte_len(text) == 8 || byte_len(text) == 10 || byte_len(text)
            == 11 || byte_len(text) == 12) ==> decoded_time(text) == Err::<Time, FormatErrorKind>(
            FormatErrorKind::UnknownFormat,
        ),
        byte_len(text) != 10 ==> decoded_date(text) is Err && decoded_date(text)->Err_0
            != FormatErrorKind::UnknownFormat,
{
    if date_of(text) is Ok {
        lemma_read_date_shape(text);
        lemma_ascii_byte_len(text);
    }
}

/// A text of one of the rows of timestamps without an offset is read, as a
/// timestamp with an offset, as what it is read as without one, taken as
/// UTC; and it is refused for the one kind as it is for the other.
pub proof fn lemma_without_an_offset_is_utc(text: Seq<char>)
    requires
        primitive_date_time_pattern(byte_len(text), has_t(text), has_z(text)) is Some,
    ensures
        decoded_offset_date_time(text) == match decoded_primitive_date_time(text) {
            Ok(value) => Ok::<OffsetDateTime, FormatErrorKind>(value.at_utc()),
            Err(e) => Err(e),
        },
{
}

/// A text is read as a date exactly if it is what the date is written as.
pub proof fn lemma_dates_are_read_from_their_texts(text: Seq<char>, date: Date)
    ensures
        decoded_date(text) == Ok::<Date, FormatErrorKind>(date) <==> encoded_date(date) == Ok::<
            Seq<char>,
            crate::error::ConversionError,
        >(text),
{
    if decoded_date(text) == Ok::<Date, FormatErrorKind>(date) {
        lemma_read_date_is_writable(text);
        lemma_read_date_text(text, 0);
        assert(text.subrange(0, 10) =~= text);
    }
    if encoded_date(date) == Ok::<Seq<char>, crate::error::ConversionError>(text) {
        lemma_date_round_trip(date);
    }
}

/// A text that is read as a time of day is what a row of the table writes
/// of that time of day: the row of the length of the text, with as many
/// digits of subsecond as the text has after its ninth character.
pub proof fn lemma_time_that_is_read_was_written(text: Seq<char>)
    requires
        decoded_time(text) is Ok,
    ensures
        time_row(time_pattern(byte_len(text))->0, decoded_time(text)->Ok_0, digit_run(text, 9)),
        text == time_text_as(
            decoded_time(text)->Ok_0,
            time_pattern(byte_len(text))->0,
            digit_run(text, 9),
        ),
{
    let pattern = time_pattern(byte_len(text))->0;
    lemma_read_time_shape(text, pattern);
    lemma_read_time_text(text, pattern);
    lemma_ascii_byte_len(text);
}

/// A text that is read as a timestamp with an offset is what a row of the
/// table writes of that timestamp: the row that the length and the markers
/// of the text select, with as many digits of subsecond as the text has
/// after its twentieth character.
pub proof fn lemma_offset_date_time_that_is_read_was_written(text: Seq<char>)
    requires
        decoded_offset_date_time(text) is Ok,
    ensures
        offset_date_time_row(
            offset_date_time_pattern(byte_len(text), has_t(text), has_z(text))->0,
            digit_run(text, 20),
        ),
        is_written_as(
            text,
            decoded_offset_date_time(text)->Ok_0,
            offset_date_time_pattern(byte_len(text), has_t(text), has_z(text))->0,
            digit_run(text, 20),
        ),
{
    let pattern = offset_date_time_pattern(byte_len(text), has_t(text), has_z(text))->0;
    let digits = digit_run(text, 20);
    assert(date_time_of(text, pattern) is Ok);
    lemma_read_date_time_shape(text, pattern);
    lemma_read_date_time_text(text, pattern);
    lemma_ascii_byte_len(text);
    assert(offset_date_time_row(pattern, digits)) by {
        if pattern.layout().subsecond_lead is Some {
            lemma_selected_patterns_are_rows(byte_len(text), has_t(text), has_z(text), digits);
        }
    }
    let value = date_time_of(text, pattern)->Ok_0;
    let written = date_time_text_as(value, pattern, digits);
    let sign_at = sign_start(pattern, digits);
    if has_offset(pattern) && text[sign_at] == written[sign_at] {
        assert(written.update(sign_at, text[sign_at]) =~= written);
    }
}

/// What a row of the table of timestamps with an offset writes of a
/// timestamp is decoded as that timestamp, also with a minus before an
/// offset of zero. With the law before this one: a text is decoded as a
/// timestamp exactly if a row writes the timestamp as that text.
pub proof fn lemma_offset_date_time_is_read_from_what_is_written(
    text: Seq<char>,
    value: OffsetDateTime,
    pattern: DateTimePattern,
    digits: nat,
)
    requires
        offset_date_time_row(pattern, digits),
        is_written_as(text, value, pattern, digits),
    ensures
        decoded_offset_date_time(text) == Ok::<OffsetDateTime, FormatErrorKind>(value),
{
    let written = date_time_text_as(value, pattern, digits);
    lemma_offset_date_time_rows_are_read(value, pattern, digits);
    if text != written {
        let sign_at = sign_start(pattern, digits);
        lemma_pattern_reads_what_it_writes(value, pattern, digits);
        lemma_read_date_time_shape(written, pattern);
        lemma_minus_before_zero(written, pattern);
        lemma_rows_select_their_patterns(pattern, digits);
        assert(is_ascii_chars(text)) by {
            assert forall|i: int| 0 <= i < text.len() implies '\0' <= #[trigger] text[i]
                <= '\u{7f}' by {
                if i != sign_at {
                    assert(text[i] == written[i]);
                }
            }
        }
        lemma_ascii_byte_len(text);
        lemma_ascii_byte_len(written);
        assert(has_t(text) == has_t(written));
        assert(has_z(text) == has_z(written));
    }
}

/// A text that is read as a timestamp without an offset is what a row of the
/// table writes of that timestamp.
pub proof fn lemma_primitive_date_time_that_is_read_was_written(text: Seq<char>)
    requires
        decoded_primitive_date_time(text) is Ok,
    ensures
        ({
            let pattern = primitive_date_time_pattern(byte_len(text), has_t(text), has_z(text))->0;
            let value = decoded_primitive_date_time(text)->Ok_0;
            let digits = digit_run(text, 20);
            &&& primitive_date_time_row(pattern, digits)
            &&& writes_all(pattern, value.at_utc(), digits)
            &&& text == date_time_text_as(value.at_utc(), pattern, digits)
        }),
{
    let pattern = primitive_date_time_pattern(byte_len(text), has_t(text), has_z(text))->0;
    lemma_read_date_time_shape(text, pattern);
    lemma_read_date_time_text(text, pattern);
    lemma_ascii_byte_len(text);
}

} // verus!
