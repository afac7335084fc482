//! Timestamps: a date and a time of day, without or with an offset from UTC.

use vstd::prelude::*;
use crate::calendar::Date;
use crate::clock::{Time, UtcOffset};

verus! {

/// A date and a time of day with no offset: what a wall clock shows.
#[derive(Clone, Copy, Debug, PartialEq, Eq, Structural)]
pub struct PrimitiveDateTime {
    pub date: Date,
    pub time: Time,
}

impl PrimitiveDateTime {
    pub open spec fn is_valid(self) -> bool {
        self.date.is_valid() && self.time.is_valid()
    }

    /// Decides whether the date and the time of day are both valid.
    pub fn valid(&self) -> (ok: bool)
        ensures
            ok == self.is_valid(),
    {
        self.date.valid() && self.time.valid()
    }

    /// This timestamp at the start of its second.
    pub open spec fn without_subsecond(self) -> PrimitiveDateTime {
        PrimitiveDateTime {
            date: self.date,
            time: Time {
                hour: self.time.hour,
                minute: self.time.minute,
                second: self.time.second,
                nanosecond: 0,
            },
        }
    }

    /// This wall-clock reading, taken as one of UTC.
    pub open spec fn at_utc(self) -> OffsetDateTime {
        OffsetDateTime { date_time: self, offset: UtcOffset::utc() }
    }

    /// Takes this wall-clock reading as one of UTC.
    pub fn assume_utc(self) -> (aware: OffsetDateTime)
        ensures
            aware == self.at_utc(),
    {
        OffsetDateTime { date_time: self, offset: UtcOffset { hours: 0, minutes: 0 } }
    }
}

/// A date and a time of day together with the offset from UTC of the clock
/// that showed them: an instant.
#[derive(Clone, Copy, Debug, PartialEq, Eq, Structural)]
pub struct OffsetDateTime {
    /// What the clock at `offset` showed.
    pub date_time: PrimitiveDateTime,
    pub offset: UtcOffset,
}

impl OffsetDateTime {
    pub open spec fn is_valid(self) -> bool {
        self.date_time.is_valid() && self.offset.is_valid()
    }

    /// This timestamp at the start of its second.
    pub open spec fn without_subsecond(self) -> OffsetDateTime {
        OffsetDateTime { date_time: self.date_time.without_subsecond(), offset: self.offset }
    }

    /// Decides whether the date, the time of day and the offset are all valid.
    pub fn valid(&self) -> (ok: bool)
        ensures
            ok == self.is_valid(),
    {
        self.date_time.valid() && self.offset.valid()
    }
}

} // verus!
