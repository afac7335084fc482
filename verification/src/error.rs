//! The errors of the codec.

use vstd::prelude::*;

verus! {

/// A field of a date, a time of day or an offset.
#[derive(Clone, Copy, Debug, PartialEq, Eq, Structural)]
pub enum Component {
    Year,
    Month,
    Day,
    Hour,
    Minute,
    Second,
    Subsecond,
    OffsetHour,
    OffsetMinute,
}

/// Why a text does not follow a pattern.
#[derive(Clone, Copy, Debug, PartialEq, Eq, Structural)]
pub enum ParseError {
    /// A separator or marker of the pattern is not where the pattern has it.
    InvalidLiteral,
    /// The digits of a field are missing or malformed, or the number they
    /// write is outside the field's range.
    InvalidComponent(Component),
    /// The text goes on after the end of the pattern.
    UnexpectedTrailingCharacters,
    /// Every field is in range, but the month has no such day in that year.
    InvalidDate,
}

/// What went wrong while decoding a text.
#[derive(Clone, Copy, Debug, PartialEq, Eq, Structural)]
pub enum FormatErrorKind {
    /// The length and markers of the text select no pattern.
    UnknownFormat,
    /// A pattern was selected, and the text does not follow it.
    Malformed(ParseError),
}

/// A text could not be decoded. Nothing is decoded in part.
#[derive(Clone, Debug, PartialEq, Eq)]
pub struct FormatError {
    /// The offending text.
    pub text: String,
    pub kind: FormatErrorKind,
}

/// A value could not be encoded: the named field is outside the range that
/// the fixed pattern can write.
#[derive(Clone, Copy, Debug, PartialEq, Eq, Structural)]
pub struct ConversionError {
    pub component: Component,
}

} // verus!
