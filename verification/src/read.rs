//! What is read was written: a text that is read under a pattern has the
//! length and the characters of the pattern, and the value that is read from
//! it can be written.

use vstd::prelude::*;
use vstd::utf8::is_ascii_chars;
use crate::clock::UtcOffset;
use crate::digits::{
    decimal, digit_run, digits_at, is_digit, lemma_decimal_len, lemma_digit_run_digits,
    lemma_digit_run_elsewhere, lemma_digits_at_elsewhere, lemma_digits_at_is_decimal,
    lemma_pow10_values, pow10,
};
use crate::format::{
    has_offset, pattern_len, sign_start, zone_start, DateTimePattern, TimePattern, ZoneMarker,
};
use crate::parse::{
    clock_at, date_at, date_of, date_time_of, field_at, offset_at, subsecond_at, time_of,
};
use crate::render::{
    clock_text, date_text, date_time_text_as, offset_text, size_of, subsecond_text, time_text_as,
    writes_all, written_exactly,
};
use crate::datetime::OffsetDateTime;
use crate::written::{lemma_offset_text_shape, lemma_written_parts};

verus! {

/// Where a field is read, it is written in digits and lies in its range.
pub proof fn lemma_read_field(s: Seq<char>, at: int, n: nat, low: int, high: int)
    requires
        n > 0,
        field_at(s, at, n, low, high) is Some,
    ensures
        low <= field_at(s, at, n, low, high)->0 <= high,
        0 <= at,
        at + n <= s.len(),
        forall|j: int| at <= j < at + n ==> is_digit(#[trigger] s[j]),
{
    lemma_digits_at_is_decimal(s, at, n);
}

/// Where a subsecond is read, it is less than a second and written in
/// digits; written in three digits or fewer, it is of whole milliseconds.
pub proof fn lemma_read_subsecond(s: Seq<char>, at: int)
    requires
        0 <= at,
        subsecond_at(s, at) is Ok,
    ensures
        0 <= subsecond_at(s, at)->Ok_0 < 1_000_000_000,
        digit_run(s, at) <= 3 ==> subsecond_at(s, at)->Ok_0 % 1_000_000 == 0,
        at + digit_run(s, at) <= s.len(),
        forall|j: int| at <= j < at + digit_run(s, at) ==> is_digit(#[trigger] s[j]),
{
    let count = digit_run(s, at);
    lemma_digit_run_digits(s, at);
    lemma_digits_at_is_decimal(s, at, count);
    lemma_pow10_values();
    let written = digits_at(s, at, count)->0;
    if count == 1 {
        assert(written * pow10(8) == written * 100_000_000);
    } else if count == 2 {
        assert(written * pow10(7) == written * 10_000_000);
    } else if count == 3 {
        assert(written * pow10(6) == written * 1_000_000);
    } else if count == 4 {
        assert(written * pow10(5) == written * 100_000);
    } else if count == 5 {
        assert(written * pow10(4) == written * 10_000);
    } else if count == 6 {
        assert(written * pow10(3) == written * 1_000);
    } else if count == 7 {
        assert(written * pow10(2) == written * 100);
    } else if count == 8 {
        assert(written * pow10(1) == written * 10);
    } else {
        assert(written * pow10(0) == written);
    }
}

/// A date that is read can be written.
pub proof fn lemma_read_date_is_writable(s: Seq<char>)
    requires
        date_of(s) is Ok,
    ensures
        date_of(s)->Ok_0.unwritable() is None,
{
    lemma_read_field(s, 0, 4, 0, 9999);
    lemma_read_field(s, 5, 2, 1, 12);
    lemma_read_field(s, 8, 2, 1, 31);
}

/// A date that is read has a text of ten characters of ASCII.
pub proof fn lemma_read_date_shape(s: Seq<char>)
    requires
        date_of(s) is Ok,
    ensures
        s.len() == 10,
        is_ascii_chars(s),
{
    lemma_read_field(s, 0, 4, 0, 9999);
    lemma_read_field(s, 5, 2, 1, 12);
    lemma_read_field(s, 8, 2, 1, 31);
    assert forall|i: int| 0 <= i < s.len() implies '\0' <= #[trigger] s[i] <= '\u{7f}' by {
        if i < 4 {
            assert(is_digit(s[i]));
        } else if i == 4 {
        } else if i < 7 {
            assert(is_digit(s[i]));
        } else if i == 7 {
        } else {
            assert(is_digit(s[i]));
        }
    }
}

/// A time of day that is read is valid, and its text is of ASCII and ends
/// with its pattern.
pub proof fn lemma_read_time_shape(s: Seq<char>, pattern: TimePattern)
    requires
        time_of(s, pattern) is Ok,
    ensures
        time_of(s, pattern)->Ok_0.unwritable() is None,
        is_ascii_chars(s),
        pattern == TimePattern::HourMinute ==> s.len() == 5,
        pattern == TimePattern::Seconds ==> s.len() == 8,
        pattern == TimePattern::Subseconds ==> s.len() == 9 + digit_run(s, 9),
        pattern == TimePattern::Subseconds && s.len() <= 12 ==> time_of(
            s,
            pattern,
        )->Ok_0.nanosecond % 1_000_000 == 0,
{
    lemma_read_field(s, 0, 2, 0, 23);
    lemma_read_field(s, 3, 2, 0, 59);
    if pattern != TimePattern::HourMinute {
        lemma_read_field(s, 6, 2, 0, 59);
    }
    if pattern == TimePattern::Subseconds {
        lemma_read_subsecond(s, 9);
    }
    assert forall|i: int| 0 <= i < s.len() implies '\0' <= #[trigger] s[i] <= '\u{7f}' by {
        if i < 2 {
            assert(is_digit(s[i]));
        } else if i == 2 {
        } else if i < 5 {
            assert(is_digit(s[i]));
        } else if i == 5 {
        } else if i < 8 {
            assert(is_digit(s[i]));
        } else if i == 8 {
        } else {
            assert(is_digit(s[i]));
        }
    }
}

/// A timestamp that is read can be written.
pub proof fn lemma_read_date_time_is_writable(s: Seq<char>, pattern: DateTimePattern)
    requires
        date_time_of(s, pattern) is Ok,
    ensures
        date_time_of(s, pattern)->Ok_0.unwritable() is None,
{
    lemma_read_field(s, 0, 4, 0, 9999);
    lemma_read_field(s, 5, 2, 1, 12);
    lemma_read_field(s, 8, 2, 1, 31);
    lemma_read_field(s, 11, 2, 0, 23);
    lemma_read_field(s, 14, 2, 0, 59);
    lemma_read_field(s, 17, 2, 0, 59);
    let layout = pattern.layout();
    if layout.subsecond_lead is Some {
        lemma_read_subsecond(s, 20);
    }
    let zone_at: int = if layout.subsecond_lead is Some {
        (20 + digit_run(s, 20)) as int
    } else {
        19
    };
    if layout.zone == crate::format::ZoneMarker::Offset {
        lemma_read_field(s, zone_at + 1, 2, 0, 25);
        lemma_read_field(s, zone_at + 4, 2, 0, 59);
    } else if layout.zone == crate::format::ZoneMarker::SpacedOffset {
        lemma_read_field(s, zone_at + 2, 2, 0, 25);
        lemma_read_field(s, zone_at + 5, 2, 0, 59);
    }
}

/// A text that is read as a timestamp is of ASCII and as long as its
/// pattern makes it with the digits of subsecond that the text has.
pub proof fn lemma_read_date_time_shape(s: Seq<char>, pattern: DateTimePattern)
    requires
        date_time_of(s, pattern) is Ok,
    ensures
        is_ascii_chars(s),
        s.len() == pattern_len(pattern, digit_run(s, 20)),
        pattern.layout().subsecond_lead is Some ==> 1 <= digit_run(s, 20) <= 9,
{
    let layout = pattern.layout();
    let zone_at = zone_start(pattern, digit_run(s, 20));
    lemma_read_field(s, 0, 4, 0, 9999);
    lemma_read_field(s, 5, 2, 1, 12);
    lemma_read_field(s, 8, 2, 1, 31);
    lemma_read_field(s, 11, 2, 0, 23);
    lemma_read_field(s, 14, 2, 0, 59);
    lemma_read_field(s, 17, 2, 0, 59);
    if layout.subsecond_lead is Some {
        lemma_read_subsecond(s, 20);
    }
    if layout.zone == ZoneMarker::Offset {
        lemma_read_field(s, zone_at + 1, 2, 0, 25);
        lemma_read_field(s, zone_at + 4, 2, 0, 59);
    } else if layout.zone == ZoneMarker::SpacedOffset {
        lemma_read_field(s, zone_at + 2, 2, 0, 25);
        lemma_read_field(s, zone_at + 5, 2, 0, 59);
    }
    assert forall|i: int| 0 <= i < s.len() implies '\0' <= #[trigger] s[i] <= '\u{7f}' by {
        if i < 19 {
            if i != 4 && i != 7 && i != 10 && i != 13 && i != 16 {
                assert(is_digit(s[i]));
            }
        } else if i < zone_at {
            if i > 19 {
                assert(is_digit(s[i]));
            }
        } else if layout.zone == ZoneMarker::Offset {
            if i != zone_at && i != zone_at + 3 {
                assert(is_digit(s[i]));
            }
        } else if layout.zone == ZoneMarker::SpacedOffset {
            if i != zone_at && i != zone_at + 1 && i != zone_at + 4 {
                assert(is_digit(s[i]));
            }
        }
    }
}

/// Where a field is read, the text has its number there in `n` digits.
pub proof fn lemma_read_field_text(s: Seq<char>, at: int, n: nat, low: int, high: int)
    requires
        n > 0,
        field_at(s, at, n, low, high) is Some,
    ensures
        0 <= at,
        at + n <= s.len(),
        s.subrange(at, at + n) == decimal(field_at(s, at, n, low, high)->0, n),
        decimal(field_at(s, at, n, low, high)->0, n).len() == n,
{
    lemma_digits_at_is_decimal(s, at, n);
    lemma_decimal_len(field_at(s, at, n, low, high)->0, n);
}

/// Where a date is read, the text has there what the date is written as.
pub proof fn lemma_read_date_text(s: Seq<char>, at: int)
    requires
        date_at(s, at) is Ok,
    ensures
        0 <= at,
        at + 10 <= s.len(),
        s.subrange(at, at + 10) == date_text(date_at(s, at)->Ok_0),
{
    let date = date_at(s, at)->Ok_0;
    let part = s.subrange(at, at + 10);
    let text = date_text(date);
    lemma_read_field_text(s, at, 4, 0, 9999);
    lemma_read_field_text(s, at + 5, 2, 1, 12);
    lemma_read_field_text(s, at + 8, 2, 1, 31);
    assert(text.len() == 10);
    assert forall|i: int| 0 <= i < 10 implies part[i] == text[i] by {
        if i < 4 {
            assert(s.subrange(at, at + 4)[i] == s[at + i]);
        } else if i == 4 {
        } else if i < 7 {
            assert(s.subrange(at + 5, at + 7)[i - 5] == s[at + i]);
        } else if i == 7 {
        } else {
            assert(s.subrange(at + 8, at + 10)[i - 8] == s[at + i]);
        }
    }
    assert(part =~= text);
}

/// Where an hour, a minute and a second are read, the text has there what
/// they are written as.
pub proof fn lemma_read_clock_text(s: Seq<char>, at: int)
    requires
        clock_at(s, at, true) is Ok,
    ensures
        0 <= at,
        at + 8 <= s.len(),
        s.subrange(at, at + 8) == clock_text(clock_at(s, at, true)->Ok_0),
{
    let time = clock_at(s, at, true)->Ok_0;
    let part = s.subrange(at, at + 8);
    let text = clock_text(time);
    lemma_read_field_text(s, at, 2, 0, 23);
    lemma_read_field_text(s, at + 3, 2, 0, 59);
    lemma_read_field_text(s, at + 6, 2, 0, 59);
    assert(text.len() == 8);
    assert forall|i: int| 0 <= i < 8 implies part[i] == text[i] by {
        if i < 2 {
            assert(s.subrange(at, at + 2)[i] == s[at + i]);
        } else if i == 2 {
        } else if i < 5 {
            assert(s.subrange(at + 3, at + 5)[i - 3] == s[at + i]);
        } else if i == 5 {
        } else {
            assert(s.subrange(at + 6, at + 8)[i - 6] == s[at + i]);
        }
    }
    assert(part =~= text);
}

/// Where a subsecond is read, the text has there the digits that write it
/// exactly.
pub proof fn lemma_read_subsecond_text(s: Seq<char>, at: int)
    requires
        0 <= at,
        subsecond_at(s, at) is Ok,
    ensures
        at + digit_run(s, at) <= s.len(),
        written_exactly(subsecond_at(s, at)->Ok_0, digit_run(s, at)),
        s.subrange(at, at + digit_run(s, at)) == subsecond_text(
            subsecond_at(s, at)->Ok_0,
            digit_run(s, at),
        ),
{
    let count = digit_run(s, at);
    lemma_digit_run_digits(s, at);
    lemma_digits_at_is_decimal(s, at, count);
    lemma_pow10_values();
    let written = digits_at(s, at, count)->0;
    let nanos = subsecond_at(s, at)->Ok_0;
    let scale = pow10((9 - count) as nat);
    assert(nanos % scale == 0 && nanos / scale == written) by {
        if count == 1 {
            assert(written * 100_000_000 / 100_000_000 == written);
        } else if count == 2 {
            assert(written * 10_000_000 / 10_000_000 == written);
        } else if count == 3 {
            assert(written * 1_000_000 / 1_000_000 == written);
        } else if count == 4 {
            assert(written * 100_000 / 100_000 == written);
        } else if count == 5 {
            assert(written * 10_000 / 10_000 == written);
        } else if count == 6 {
            assert(written * 1_000 / 1_000 == written);
        } else if count == 7 {
            assert(written * 100 / 100 == written);
        } else if count == 8 {
            assert(written * 10 / 10 == written);
        } else {
            assert(written * 1 / 1 == written);
        }
    }
}

/// Where an offset is read, the text has there what the offset is written
/// as, but for the sign: an offset of zero is read with either sign.
pub proof fn lemma_read_offset_text(s: Seq<char>, at: int)
    requires
        offset_at(s, at) is Ok,
    ensures
        0 <= at,
        at + 6 <= s.len(),
        offset_at(s, at)->Ok_0.is_valid(),
        s.subrange(at, at + 6) == offset_text(offset_at(s, at)->Ok_0).update(0, s[at]),
        s[at] == offset_text(offset_at(s, at)->Ok_0)[0] || (s[at] == '-' && offset_at(
            s,
            at,
        )->Ok_0 == UtcOffset::utc()),
{
    let offset = offset_at(s, at)->Ok_0;
    let part = s.subrange(at, at + 6);
    let text = offset_text(offset).update(0, s[at]);
    lemma_read_field_text(s, at + 1, 2, 0, 25);
    lemma_read_field_text(s, at + 4, 2, 0, 59);
    lemma_offset_text_shape(offset);
    assert(size_of(offset.hours as int) == field_at(s, at + 1, 2, 0, 25)->0);
    assert(size_of(offset.minutes as int) == field_at(s, at + 4, 2, 0, 59)->0);
    assert forall|i: int| 0 <= i < 6 implies part[i] == text[i] by {
        if i == 0 {
        } else if i < 3 {
            assert(s.subrange(at + 1, at + 3)[i - 1] == s[at + i]);
        } else if i == 3 {
        } else {
            assert(s.subrange(at + 4, at + 6)[i - 4] == s[at + i]);
        }
    }
    assert(part =~= text);
}

/// Two texts of one length that are the same before `a`, from `a` to `b`
/// and from `b` on are one text.
pub proof fn lemma_same_parts(s: Seq<char>, w: Seq<char>, a: int, b: int)
    requires
        s.len() == w.len(),
        0 <= a <= b <= s.len(),
        s.subrange(0, a) == w.subrange(0, a),
        s.subrange(a, b) == w.subrange(a, b),
        s.subrange(b, s.len() as int) == w.subrange(b, w.len() as int),
    ensures
        s == w,
{
    assert forall|i: int| 0 <= i < s.len() implies s[i] == w[i] by {
        if i < a {
            assert(s.subrange(0, a)[i] == s[i]);
            assert(w.subrange(0, a)[i] == w[i]);
        } else if i < b {
            assert(s.subrange(a, b)[i - a] == s[i]);
            assert(w.subrange(a, b)[i - a] == w[i]);
        } else {
            assert(s.subrange(b, s.len() as int)[i - b] == s[i]);
            assert(w.subrange(b, w.len() as int)[i - b] == w[i]);
        }
    }
    assert(s =~= w);
}

/// A text that is read as a timestamp begins with what the date, the
/// separator and the time of day of the timestamp are written as.
pub proof fn lemma_read_head_text(s: Seq<char>, pattern: DateTimePattern)
    requires
        date_time_of(s, pattern) is Ok,
    ensures
        19 <= s.len(),
        s.subrange(0, 19) == date_text(date_time_of(s, pattern)->Ok_0.date_time.date)
            + seq![pattern.layout().separator] + clock_text(
            date_time_of(s, pattern)->Ok_0.date_time.time,
        ),
{
    let value = date_time_of(s, pattern)->Ok_0;
    let head = date_text(value.date_time.date) + seq![pattern.layout().separator] + clock_text(
        value.date_time.time,
    );
    lemma_read_date_text(s, 0);
    lemma_read_clock_text(s, 11);
    assert(clock_text(value.date_time.time) == clock_text(clock_at(s, 11, true)->Ok_0));
    assert(date_text(value.date_time.date).len() == 10);
    assert(clock_text(value.date_time.time).len() == 8);
    assert forall|i: int| 0 <= i < 19 implies s.subrange(0, 19)[i] == head[i] by {
        if i < 10 {
            assert(s.subrange(0, 10)[i] == s[i]);
        } else if i > 10 {
            assert(s.subrange(11, 19)[i - 11] == s[i]);
        }
    }
    assert(s.subrange(0, 19) =~= head);
}

/// The text that `pattern` writes of `value`, with the sign of the offset as
/// `s` has it.
pub open spec fn written_with_sign_of(
    s: Seq<char>,
    value: OffsetDateTime,
    pattern: DateTimePattern,
    digits: nat,
) -> Seq<char> {
    if has_offset(pattern) {
        date_time_text_as(value, pattern, digits).update(
            sign_start(pattern, digits),
            s[sign_start(pattern, digits)],
        )
    } else {
        date_time_text_as(value, pattern, digits)
    }
}

/// A text that is read as a timestamp is what its pattern writes of the
/// timestamp, in the digits of subsecond that the text has, and with the
/// sign that the text has: that of the offset, or a minus before an offset
/// of zero.
pub proof fn lemma_read_date_time_text(s: Seq<char>, pattern: DateTimePattern)
    requires
        date_time_of(s, pattern) is Ok,
    ensures
        writes_all(pattern, date_time_of(s, pattern)->Ok_0, digit_run(s, 20)),
        s == written_with_sign_of(s, date_time_of(s, pattern)->Ok_0, pattern, digit_run(s, 20)),
        s.len() == date_time_text_as(date_time_of(s, pattern)->Ok_0, pattern, digit_run(s, 20)).len(),
        has_offset(pattern) ==> 0 <= sign_start(pattern, digit_run(s, 20)) < s.len(),
        has_offset(pattern) ==> s[sign_start(pattern, digit_run(s, 20))] == date_time_text_as(
            date_time_of(s, pattern)->Ok_0,
            pattern,
            digit_run(s, 20),
        )[sign_start(pattern, digit_run(s, 20))] || (s[sign_start(pattern, digit_run(s, 20))]
            == '-' && date_time_of(s, pattern)->Ok_0.offset == UtcOffset::utc()),
{
    let layout = pattern.layout();
    let value = date_time_of(s, pattern)->Ok_0;
    let digits = digit_run(s, 20);
    let zone_at = zone_start(pattern, digits);
    let sign_at = sign_start(pattern, digits);
    let w = date_time_text_as(value, pattern, digits);
    let target = written_with_sign_of(s, value, pattern, digits);
    lemma_read_date_time_is_writable(s, pattern);
    lemma_read_date_time_shape(s, pattern);
    if layout.subsecond_lead is Some {
        lemma_read_subsecond(s, 20);
        lemma_read_subsecond_text(s, 20);
    }
    assert(writes_all(pattern, value, digits));
    lemma_written_parts(value, pattern, digits);
    lemma_read_head_text(s, pattern);
    assert(target.len() == s.len());
    assert(target.subrange(0, 19) =~= w.subrange(0, 19));
    assert(target.subrange(19, zone_at) =~= w.subrange(19, zone_at));
    assert(s.subrange(19, zone_at) =~= w.subrange(19, zone_at)) by {
        if layout.subsecond_lead is Some {
            assert forall|i: int| 19 <= i < zone_at implies s[i] == w[i] by {
                if i > 19 {
                    assert(s.subrange(20, zone_at)[i - 20] == s[i]);
                    assert(w.subrange(20, zone_at)[i - 20] == w[i]);
                }
            }
        }
    }
    let end = s.len() as int;
    assert(s.subrange(zone_at, end) =~= target.subrange(zone_at, end)) by {
        let part = w.subrange(zone_at, end);
        if layout.zone == ZoneMarker::Z {
            assert(part[0] == w[zone_at]);
        } else if has_offset(pattern) {
            lemma_read_offset_text(s, sign_at);
            assert forall|i: int| zone_at <= i < end implies s[i] == target[i] by {
                assert(part[i - zone_at] == w[i]);
                if i > sign_at {
                    assert(s.subrange(sign_at, sign_at + 6)[i - sign_at] == s[i]);
                }
            }
        }
    }
    lemma_same_parts(s, target, 19, zone_at);
    if has_offset(pattern) {
        lemma_read_offset_text(s, sign_at);
        assert(w.subrange(zone_at, end)[sign_at - zone_at] == w[sign_at]);
    }
}

/// A text that is read as a time of day is what its pattern writes of the
/// time of day, in the digits of subsecond that the text has.
pub proof fn lemma_read_time_text(s: Seq<char>, pattern: TimePattern)
    requires
        time_of(s, pattern) is Ok,
    ensures
        pattern == TimePattern::Subseconds ==> written_exactly(
            time_of(s, pattern)->Ok_0.nanosecond as int,
            digit_run(s, 9),
        ),
        s == time_text_as(time_of(s, pattern)->Ok_0, pattern, digit_run(s, 9)),
{
    let time = time_of(s, pattern)->Ok_0;
    let digits = digit_run(s, 9);
    let w = time_text_as(time, pattern, digits);
    lemma_read_time_shape(s, pattern);
    if pattern == TimePattern::HourMinute {
        lemma_read_field_text(s, 0, 2, 0, 23);
        lemma_read_field_text(s, 3, 2, 0, 59);
        assert forall|i: int| 0 <= i < 5 implies s[i] == w[i] by {
            if i < 2 {
                assert(s.subrange(0, 2)[i] == s[i]);
            } else if i > 2 {
                assert(s.subrange(3, 5)[i - 3] == s[i]);
            }
        }
        assert(s =~= w);
    } else {
        lemma_read_clock_text(s, 0);
        assert(clock_text(time) == clock_text(clock_at(s, 0, true)->Ok_0));
        assert(clock_text(time).len() == 8);
        if pattern == TimePattern::Seconds {
            assert(s =~= s.subrange(0, 8));
        } else {
            lemma_read_subsecond(s, 9);
            lemma_read_subsecond_text(s, 9);
            let tail = subsecond_text(time.nanosecond as int, digits);
            assert(tail.len() == digits) by {
                lemma_decimal_len(time.nanosecond as int / pow10((9 - digits) as nat), digits);
            }
            assert forall|i: int| 0 <= i < s.len() implies s[i] == w[i] by {
                if i < 8 {
                    assert(s.subrange(0, 8)[i] == s[i]);
                } else if i > 8 {
                    assert(s.subrange(9, 9 + digits as int)[i - 9] == s[i]);
                }
            }
            assert(s =~= w);
        }
    }
}

/// A text that is read as a timestamp with an offset of zero is read as the
/// same timestamp with a minus for its sign.
pub proof fn lemma_minus_before_zero(s: Seq<char>, pattern: DateTimePattern)
    requires
        date_time_of(s, pattern) is Ok,
        has_offset(pattern),
        date_time_of(s, pattern)->Ok_0.offset == UtcOffset::utc(),
    ensures
        0 <= sign_start(pattern, digit_run(s, 20)) < s.len(),
        date_time_of(s.update(sign_start(pattern, digit_run(s, 20)), '-'), pattern)
            == date_time_of(s, pattern),
        digit_run(s.update(sign_start(pattern, digit_run(s, 20)), '-'), 20) == digit_run(s, 20),
{
    let digits = digit_run(s, 20);
    let sign_at = sign_start(pattern, digits);
    let changed = s.update(sign_at, '-');
    lemma_read_date_time_shape(s, pattern);
    lemma_digit_run_digits(s, 20);
    lemma_digit_run_elsewhere(s, 20, sign_at, '-');
    lemma_digits_at_elsewhere(s, 0, 4, sign_at, '-');
    lemma_digits_at_elsewhere(s, 5, 2, sign_at, '-');
    lemma_digits_at_elsewhere(s, 8, 2, sign_at, '-');
    lemma_digits_at_elsewhere(s, 11, 2, sign_at, '-');
    lemma_digits_at_elsewhere(s, 14, 2, sign_at, '-');
    lemma_digits_at_elsewhere(s, 17, 2, sign_at, '-');
    lemma_digits_at_elsewhere(s, sign_at + 1, 2, sign_at, '-');
    lemma_digits_at_elsewhere(s, sign_at + 4, 2, sign_at, '-');
    if pattern.layout().subsecond_lead is Some {
        lemma_digits_at_elsewhere(s, 20, digits, sign_at, '-');
    }
}

} // verus!
