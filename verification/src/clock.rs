//! Times of day and offsets from UTC.

use vstd::prelude::*;

verus! {

/// A time of day, to the nanosecond. There is no 24:00.
#[derive(Clone, Copy, Debug, PartialEq, Eq, Structural)]
pub struct Time {
    /// 0 to 23.
    pub hour: u8,
    /// 0 to 59.
    pub minute: u8,
    /// 0 to 59.
    pub second: u8,
    /// 0 to 999,999,999.
    pub nanosecond: u32,
}

impl Time {
    pub open spec fn is_valid(self) -> bool {
        &&& self.hour < 24
        &&& self.minute < 60
        &&& self.second < 60
        &&& self.nanosecond < 1_000_000_000
    }

    /// Decides whether every field is in its range.
    pub fn valid(&self) -> (ok: bool)
        ensures
            ok == self.is_valid(),
    {
        self.hour < 24 && self.minute < 60 && self.second < 60 && self.nanosecond < 1_000_000_000
    }
}

/// An offset from UTC in hours and minutes. East of Greenwich both fields
/// are zero or more, west of it both are zero or less.
#[derive(Clone, Copy, Debug, PartialEq, Eq, Structural)]
pub struct UtcOffset {
    /// -25 to 25.
    pub hours: i8,
    /// -59 to 59.
    pub minutes: i8,
}

impl UtcOffset {
    pub open spec fn is_valid(self) -> bool {
        &&& -25 <= self.hours <= 25
        &&& -59 <= self.minutes <= 59
        &&& self.hours > 0 ==> self.minutes >= 0
        &&& self.hours < 0 ==> self.minutes <= 0
    }

    /// Decides whether both fields are in range and agree in sign.
    pub fn valid(&self) -> (ok: bool)
        ensures
            ok == self.is_valid(),
    {
        -25 <= self.hours && self.hours <= 25 && -59 <= self.minutes && self.minutes <= 59 && (
        self.hours <= 0 || self.minutes >= 0) && (self.hours >= 0 || self.minutes <= 0)
    }

    /// The offset as a number of minutes east of Greenwich.
    pub open spec fn total_minutes(self) -> int {
        self.hours * 60 + self.minutes
    }

    /// No offset at all.
    pub open spec fn utc() -> UtcOffset {
        UtcOffset { hours: 0, minutes: 0 }
    }
}

} // verus!
