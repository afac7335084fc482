//! The instant of a timestamp with an offset, and the timestamp of an
//! instant.

use vstd::prelude::*;
use crate::calendar::{days_before_year, lemma_days_before_year, Date};
use crate::clock::{Time, UtcOffset};
use crate::datetime::{OffsetDateTime, PrimitiveDateTime};
use crate::error::{Component, ConversionError};

verus! {

/// Whether an instant, in nanoseconds since the start of 1970 in UTC, lies
/// in the years -9999 to 9999 of UTC.
pub open spec fn instant_in_range(nanos: int) -> bool {
    days_before_year(-9999) * 86_400_000_000_000 <= nanos < days_before_year(10_000)
        * 86_400_000_000_000
}

impl Time {
    /// The nanoseconds from midnight to this time of day.
    pub open spec fn nanos_of_day(self) -> int {
        (self.hour * 3_600 + self.minute * 60 + self.second) * 1_000_000_000 + self.nanosecond
    }
}

impl OffsetDateTime {
    /// The instant of this timestamp, in nanoseconds since the start of 1970
    /// in UTC: what the clock shows, less the offset of the clock.
    pub open spec fn unix_nanos(self) -> int {
        self.date_time.date.days_since_epoch() * 86_400_000_000_000
            + self.date_time.time.nanos_of_day() - self.offset.total_minutes() * 60_000_000_000
    }

    /// Computes the instant of this timestamp, in nanoseconds since the
    /// start of 1970 in UTC.
    pub fn unix_timestamp_nanos(&self) -> (nanos: i128)
        ensures
            nanos == self.unix_nanos(),
    {
        let days: i128 = self.date_time.date.count_days_since_epoch() as i128;
        let of_day: i128 = (self.date_time.time.hour as i128 * 3_600
            + self.date_time.time.minute as i128 * 60 + self.date_time.time.second as i128)
            * 1_000_000_000 + self.date_time.time.nanosecond as i128;
        let ahead: i128 = (self.offset.hours as i128 * 60 + self.offset.minutes as i128)
            * 60_000_000_000;
        days * 86_400_000_000_000 + of_day - ahead
    }

    /// Decides whether this timestamp and `other` are the same instant,
    /// whatever their offsets.
    pub fn same_instant(&self, other: &OffsetDateTime) -> (same: bool)
        ensures
            same == (self.unix_nanos() == other.unix_nanos()),
    {
        self.unix_timestamp_nanos() == other.unix_timestamp_nanos()
    }

    /// Finds the timestamp of UTC at the instant `nanos`, in nanoseconds
    /// since the start of 1970 in UTC. Fails for an instant before the year
    /// -9999 or after the year 9999.
    pub fn from_unix_timestamp_nanos(nanos: i128) -> (found: Result<
        OffsetDateTime,
        ConversionError,
    >)
        ensures
            match found {
                Ok(value) => instant_in_range(nanos as int) && value.is_valid() && value.offset
                    == UtcOffset::utc() && value.unix_nanos() == nanos,
                Err(e) => !instant_in_range(nanos as int) && e.component == Component::Year,
            },
    {
        proof {
            lemma_days_before_year(-9999);
            lemma_days_before_year(10_000);
        }
        if nanos < -377_705_116_800_000_000_000 || nanos >= 253_402_300_800_000_000_000 {
            return Err(ConversionError { component: Component::Year });
        }
        let since: i128 = nanos + 377_705_116_800_000_000_000;
        let days: i64 = (since / 86_400_000_000_000) as i64 - 4_371_587;
        let of_day: i128 = since % 86_400_000_000_000;
        let date = match Date::from_days_since_epoch(days) {
            Ok(d) => d,
            Err(e) => { return Err(e); },
        };
        let seconds: u32 = (of_day / 1_000_000_000) as u32;
        let time = Time {
            hour: (seconds / 3_600) as u8,
            minute: (seconds % 3_600 / 60) as u8,
            second: (seconds % 60) as u8,
            nanosecond: (of_day % 1_000_000_000) as u32,
        };
        Ok(
            OffsetDateTime {
                date_time: PrimitiveDateTime { date, time },
                offset: UtcOffset { hours: 0, minutes: 0 },
            },
        )
    }

    /// Two valid timestamps with one offset that are the same instant are
    /// one timestamp.
    pub proof fn lemma_instants_tell_timestamps_apart(self, other: OffsetDateTime)
        requires
            self.is_valid(),
            other.is_valid(),
            self.offset == other.offset,
            self.unix_nanos() == other.unix_nanos(),
        ensures
            self == other,
    {
        let a = self.date_time;
        let b = other.date_time;
        assert(0 <= a.time.nanos_of_day() < 86_400_000_000_000);
        assert(0 <= b.time.nanos_of_day() < 86_400_000_000_000);
        assert(a.date.days_since_epoch() == b.date.days_since_epoch());
        a.date.lemma_days_tell_dates_apart(b.date);
        assert(a.time.nanos_of_day() == b.time.nanos_of_day());
        let sa = a.time.hour * 3_600 + a.time.minute * 60 + a.time.second;
        let sb = b.time.hour * 3_600 + b.time.minute * 60 + b.time.second;
        assert(sa == sb && a.time.nanosecond == b.time.nanosecond);
    }
}

} // verus!
