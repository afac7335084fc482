//! A codec between date and time values and the text cells of a SQL engine
//! that has no temporal column type.
//!
//! Four kinds of value are handled: [`OffsetDateTime`], [`PrimitiveDateTime`],
//! [`Date`] and [`Time`]. Each kind is written in one fixed form (`to_sql`) and
//! read back from a family of forms (`column_result`), of which the right one
//! is found from the length of the text and two marker characters.
//!
//! - [`calendar`], [`clock`], [`datetime`] and [`instant`] hold the values;
//! - [`format`] holds the patterns and the tables that select them;
//! - [`parse`] reads a text under a pattern, and [`render`] writes a value;
//! - [`codec`] holds `to_sql` and `column_result`;
//! - [`laws`] states what holds of them together, and [`written`], [`read`]
//!   and [`digits`] hold what the laws are proved from.

pub mod calendar;
pub mod clock;
pub mod codec;
pub mod datetime;
pub mod digits;
pub mod error;
pub mod format;
pub mod instant;
pub mod laws;
pub mod parse;
pub mod read;
pub mod render;
pub mod written;

pub use calendar::Date;
pub use clock::{Time, UtcOffset};
pub use datetime::{OffsetDateTime, PrimitiveDateTime};
pub use error::{Component, ConversionError, FormatError, FormatErrorKind, ParseError};
