//! The codec itself: for each kind of value, `to_sql` writes it as the text
//! of a cell and `column_result` reads it back from one.

use vstd::prelude::*;
use vstd::string::*;
use vstd::utf8::encode_utf8;
use crate::calendar::Date;
use crate::clock::Time;
use crate::datetime::{OffsetDateTime, PrimitiveDateTime};
use crate::error::{ConversionError, FormatError, FormatErrorKind, ParseError};
use crate::format::{
    classify_offset_date_time, classify_primitive_date_time, classify_time,
    offset_date_time_pattern, primitive_date_time_pattern, time_pattern,
};
use crate::parse::{date_of, date_time_of, parse_date, parse_date_time, parse_time, time_of};
use crate::render::{
    date_text, offset_date_time_text, primitive_date_time_text, push_clock, push_date,
    push_offset, push_time, time_text,
};

verus! {

/// The length of `text` in bytes of UTF-8: what patterns are selected by.
pub open spec fn byte_len(text: Seq<char>) -> int {
    encode_utf8(text).len() as int
}

/// Whether the eleventh character of `text` is a `T`.
pub open spec fn has_t(text: Seq<char>) -> bool {
    text.len() > 10 && text[10] == 'T'
}

/// Whether the last character of `text` is a `Z`.
pub open spec fn has_z(text: Seq<char>) -> bool {
    text.len() > 0 && text[text.len() - 1] == 'Z'
}

/// A value read under a pattern as the result of decoding.
pub open spec fn read_as<T>(read: Result<T, ParseError>) -> Result<T, FormatErrorKind> {
    match read {
        Ok(value) => Ok(value),
        Err(e) => Err(FormatErrorKind::Malformed(e)),
    }
}

/// What a timestamp with an offset is written as, or the field that cannot
/// be written.
pub open spec fn encoded_offset_date_time(value: OffsetDateTime) -> Result<
    Seq<char>,
    ConversionError,
> {
    match value.unwritable() {
        Some(component) => Err(ConversionError { component }),
        None => Ok(offset_date_time_text(value)),
    }
}

/// What a timestamp without an offset is written as, or the field that
/// cannot be written.
pub open spec fn encoded_primitive_date_time(value: PrimitiveDateTime) -> Result<
    Seq<char>,
    ConversionError,
> {
    match value.unwritable() {
        Some(component) => Err(ConversionError { component }),
        None => Ok(primitive_date_time_text(value)),
    }
}

/// What a date is written as, or the field that cannot be written.
pub open spec fn encoded_date(value: Date) -> Result<Seq<char>, ConversionError> {
    match value.unwritable() {
        Some(component) => Err(ConversionError { component }),
        None => Ok(date_text(value)),
    }
}

/// What a time of day is written as, or the field that cannot be written.
pub open spec fn encoded_time(value: Time) -> Result<Seq<char>, ConversionError> {
    match value.unwritable() {
        Some(component) => Err(ConversionError { component }),
        None => Ok(time_text(value)),
    }
}

/// The timestamp with an offset that `text` stands for: its pattern is
/// selected by length and markers, and the text is read under it. A text
/// without an offset is taken as UTC.
pub open spec fn decoded_offset_date_time(text: Seq<char>) -> Result<
    OffsetDateTime,
    FormatErrorKind,
> {
    match offset_date_time_pattern(byte_len(text), has_t(text), has_z(text)) {
        Some(pattern) => read_as(date_time_of(text, pattern)),
        None => Err(FormatErrorKind::UnknownFormat),
    }
}

/// The timestamp without an offset that `text` stands for.
pub open spec fn decoded_primitive_date_time(text: Seq<char>) -> Result<
    PrimitiveDateTime,
    FormatErrorKind,
> {
    match primitive_date_time_pattern(byte_len(text), has_t(text), has_z(text)) {
        Some(pattern) => match date_time_of(text, pattern) {
            Ok(value) => Ok(value.date_time),
            Err(e) => Err(FormatErrorKind::Malformed(e)),
        },
        None => Err(FormatErrorKind::UnknownFormat),
    }
}

/// The date that `text` stands for. There is one pattern.
pub open spec fn decoded_date(text: Seq<char>) -> Result<Date, FormatErrorKind> {
    read_as(date_of(text))
}

/// The time of day that `text` stands for.
pub open spec fn decoded_time(text: Seq<char>) -> Result<Time, FormatErrorKind> {
    match time_pattern(byte_len(text)) {
        Some(pattern) => read_as(time_of(text, pattern)),
        None => Err(FormatErrorKind::UnknownFormat),
    }
}

/// What `column_result` returns for `text`, where decoding gives `decoded`:
/// the value, or the error with the text in it.
pub open spec fn reports<T>(
    result: Result<T, FormatError>,
    text: Seq<char>,
    decoded: Result<T, FormatErrorKind>,
) -> bool {
    match result {
        Ok(value) => decoded == Ok::<T, FormatErrorKind>(value),
        Err(e) => decoded == Err::<T, FormatErrorKind>(e.kind) && e.text@ == text,
    }
}

/// What `to_sql` returns where encoding gives `encoded`.
pub open spec fn writes(
    result: Result<String, ConversionError>,
    encoded: Result<Seq<char>, ConversionError>,
) -> bool {
    match result {
        Ok(text) => encoded == Ok::<Seq<char>, ConversionError>(text@),
        Err(e) => encoded == Err::<Seq<char>, ConversionError>(e),
    }
}

/// The characters of `text`.
fn chars_of(text: &str) -> (chars: Vec<char>)
    ensures
        chars@ == text@,
{
    let mut chars: Vec<char> = Vec::new();
    for c in it: text.chars()
        invariant
            chars@ == it.seq().subrange(0, it.index() as int),
            it.seq() == text@,
    {
        chars.push(c);
        assert(chars@ =~= it.seq().subrange(0, it.index() + 1));
    }
    assert(chars@ =~= text@);
    chars
}

/// The length of `text` in bytes.
fn byte_count(text: &str) -> (count: usize)
    ensures
        count == byte_len(text@),
{
    text.as_bytes().len()
}

/// Whether the eleventh of `chars` is a `T`, and whether the last is a `Z`.
fn markers(chars: &Vec<char>) -> (found: (bool, bool))
    ensures
        found.0 == has_t(chars@),
        found.1 == has_z(chars@),
{
    let n: usize = chars.len();
    (n > 10 && chars[10] == 'T', n > 0 && chars[n - 1] == 'Z')
}

/// The error for `text`.
fn refuse<T>(text: &str, kind: FormatErrorKind) -> (result: Result<T, FormatError>)
    ensures
        result is Err,
        result->Err_0.kind == kind,
        result->Err_0.text@ == text@,
{
    Err(FormatError { text: text.to_owned(), kind })
}

impl OffsetDateTime {
    /// Writes this timestamp as `YYYY-MM-DD HH:MM:SS+HH:MM`, the offset with
    /// its sign. The subsecond is not written. Fails where the year is not
    /// one of 0 to 9999 or a field is out of its range.
    pub fn to_sql(&self) -> (text: Result<String, ConversionError>)
        ensures
            writes(text, encoded_offset_date_time(*self)),
    {
        match self.find_unwritable() {
            Some(component) => Err(ConversionError { component }),
            None => {
                let mut out = String::new();
                push_date(&mut out, &self.date_time.date);
                proof {
                    reveal_strlit(" ");
                }
                out.append(" ");
                push_clock(&mut out, &self.date_time.time);
                push_offset(&mut out, &self.offset);
                assert(out@ =~= offset_date_time_text(*self));
                Ok(out)
            },
        }
    }

    /// Reads a timestamp in any of the forms that were ever written: with a
    /// space or a `T` after the date, with or without a subsecond, and with
    /// an offset, a `Z` or neither. Without an offset the timestamp is taken
    /// as UTC.
    pub fn column_result(text: &str) -> (value: Result<OffsetDateTime, FormatError>)
        ensures
            reports(value, text@, decoded_offset_date_time(text@)),
    {
        let len = byte_count(text);
        if len > 29 {
            // No row is as long, whatever the markers are.
            return refuse(text, FormatErrorKind::UnknownFormat);
        }
        let chars = chars_of(text);
        let (has_t, has_z) = markers(&chars);
        match classify_offset_date_time(len, has_t, has_z) {
            Some(pattern) => match parse_date_time(chars.as_slice(), pattern) {
                Ok(value) => Ok(value),
                Err(e) => refuse(text, FormatErrorKind::Malformed(e)),
            },
            None => refuse(text, FormatErrorKind::UnknownFormat),
        }
    }
}

impl PrimitiveDateTime {
    /// Writes this timestamp as `YYYY-MM-DD HH:MM:SS`. The subsecond is not
    /// written. Fails where the year is not one of 0 to 9999 or a field is
    /// out of its range.
    pub fn to_sql(&self) -> (text: Result<String, ConversionError>)
        ensures
            writes(text, encoded_primitive_date_time(*self)),
    {
        match self.find_unwritable() {
            Some(component) => Err(ConversionError { component }),
            None => {
                let mut out = String::new();
                push_date(&mut out, &self.date);
                proof {
                    reveal_strlit(" ");
                }
                out.append(" ");
                push_clock(&mut out, &self.time);
                assert(out@ =~= primitive_date_time_text(*self));
                Ok(out)
            },
        }
    }

    /// Reads a timestamp with a space or a `T` after the date, with or
    /// without a subsecond, and with or without a `Z`, which means nothing.
    pub fn column_result(text: &str) -> (value: Result<PrimitiveDateTime, FormatError>)
        ensures
            reports(value, text@, decoded_primitive_date_time(text@)),
    {
        let len = byte_count(text);
        if len > 24 {
            // No row is as long, whatever the markers are.
            return refuse(text, FormatErrorKind::UnknownFormat);
        }
        let chars = chars_of(text);
        let (has_t, has_z) = markers(&chars);
        match classify_primitive_date_time(len, has_t, has_z) {
            Some(pattern) => match parse_date_time(chars.as_slice(), pattern) {
                Ok(value) => Ok(value.date_time),
                Err(e) => refuse(text, FormatErrorKind::Malformed(e)),
            },
            None => refuse(text, FormatErrorKind::UnknownFormat),
        }
    }
}

impl Date {
    /// Writes this date as `YYYY-MM-DD`. Fails where the year is not one of
    /// 0 to 9999 or the date is invalid.
    pub fn to_sql(&self) -> (text: Result<String, ConversionError>)
        ensures
            writes(text, encoded_date(*self)),
    {
        match self.find_unwritable() {
            Some(component) => Err(ConversionError { component }),
            None => {
                let mut out = String::new();
                push_date(&mut out, self);
                assert(out@ =~= date_text(*self));
                Ok(out)
            },
        }
    }

    /// Reads a date written as `YYYY-MM-DD`.
    pub fn column_result(text: &str) -> (value: Result<Date, FormatError>)
        ensures
            reports(value, text@, decoded_date(text@)),
    {
        let chars = chars_of(text);
        match parse_date(chars.as_slice()) {
            Ok(value) => Ok(value),
            Err(e) => refuse(text, FormatErrorKind::Malformed(e)),
        }
    }
}

impl Time {
    /// Writes this time of day as `HH:MM:SS.f`, the subsecond in as few
    /// digits as write it exactly. Fails where a field is out of its range.
    pub fn to_sql(&self) -> (text: Result<String, ConversionError>)
        ensures
            writes(text, encoded_time(*self)),
    {
        match self.find_unwritable() {
            Some(component) => Err(ConversionError { component }),
            None => {
                let mut out = String::new();
                push_time(&mut out, self);
                assert(out@ =~= time_text(*self));
                Ok(out)
            },
        }
    }

    /// Reads a time of day written as `HH:MM`, as `HH:MM:SS` or as
    /// `HH:MM:SS.f` with one to three digits of subsecond.
    pub fn column_result(text: &str) -> (value: Result<Time, FormatError>)
        ensures
            reports(value, text@, decoded_time(text@)),
    {
        match classify_time(byte_count(text)) {
            Some(pattern) => {
                let chars = chars_of(text);
                match parse_time(chars.as_slice(), pattern) {
                    Ok(value) => Ok(value),
                    Err(e) => refuse(text, FormatErrorKind::Malformed(e)),
                }
            },
            None => refuse(text, FormatErrorKind::UnknownFormat),
        }
    }
}

} // verus!
