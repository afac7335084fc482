//! The codec held against the `time` crate: the same texts read by both, and
//! the same values written by both.

use sql_time::{Date, OffsetDateTime, PrimitiveDateTime, Time, UtcOffset};
use time::format_description::{parse_borrowed, BorrowedFormatItem};

fn items(description: &str) -> Vec<BorrowedFormatItem<'_>> {
    parse_borrowed::<2>(description).unwrap()
}

fn date_of(d: time::Date) -> Date {
    Date { year: d.year(), month: u8::from(d.month()), day: d.day() }
}

fn time_of(t: time::Time) -> Time {
    Time { hour: t.hour(), minute: t.minute(), second: t.second(), nanosecond: t.nanosecond() }
}

fn primitive_of(p: time::PrimitiveDateTime) -> PrimitiveDateTime {
    PrimitiveDateTime { date: date_of(p.date()), time: time_of(p.time()) }
}

fn offset_of(t: time::OffsetDateTime) -> OffsetDateTime {
    OffsetDateTime {
        date_time: PrimitiveDateTime { date: date_of(t.date()), time: time_of(t.time()) },
        offset: UtcOffset {
            hours: t.offset().whole_hours(),
            minutes: t.offset().minutes_past_hour(),
        },
    }
}

/// The pattern of a timestamp with an offset, as a description for `time`.
fn offset_description(len: usize, has_t: bool, has_z: bool) -> Option<&'static str> {
    match (len, has_t, has_z) {
        (29, false, false) => Some(
            "[year]-[month]-[day] [hour]:[minute]:[second].[subsecond][offset_hour sign:mandatory]:[offset_minute]",
        ),
        (29, true, false) => Some(
            "[year]-[month]-[day]T[hour]:[minute]:[second].[subsecond][offset_hour sign:mandatory]:[offset_minute]",
        ),
        (26, false, false) => Some(
            "[year]-[month]-[day] [hour]:[minute]:[second]:[subsecond] [offset_hour sign:mandatory]:[offset_minute]",
        ),
        (25, false, false) => Some(
            "[year]-[month]-[day] [hour]:[minute]:[second][offset_hour sign:mandatory]:[offset_minute]",
        ),
        (25, true, false) => Some(
            "[year]-[month]-[day]T[hour]:[minute]:[second][offset_hour sign:mandatory]:[offset_minute]",
        ),
        (24, true, false) => Some("[year]-[month]-[day]T[hour]:[minute]:[second].[subsecond]"),
        _ => primitive_description(len, has_t, has_z),
    }
}

/// The pattern of a timestamp without an offset, as a description for `time`.
fn primitive_description(len: usize, has_t: bool, has_z: bool) -> Option<&'static str> {
    match (len, has_t, has_z) {
        (20, true, true) => Some("[year]-[month]-[day]T[hour]:[minute]:[second]Z"),
        (19, true, false) => Some("[year]-[month]-[day]T[hour]:[minute]:[second]"),
        (20, false, true) => Some("[year]-[month]-[day] [hour]:[minute]:[second]Z"),
        (19, false, false) => Some("[year]-[month]-[day] [hour]:[minute]:[second]"),
        (24, true, true) => Some("[year]-[month]-[day]T[hour]:[minute]:[second].[subsecond]Z"),
        (23, true, false) => Some("[year]-[month]-[day]T[hour]:[minute]:[second].[subsecond]"),
        (24, false, true) => Some("[year]-[month]-[day] [hour]:[minute]:[second].[subsecond]Z"),
        (23, false, false) => Some("[year]-[month]-[day] [hour]:[minute]:[second].[subsecond]"),
        _ => None,
    }
}

fn markers(s: &str) -> (usize, bool, bool) {
    (s.len(), Some('T') == s.chars().nth(10), Some('Z') == s.chars().last())
}

fn offset_by_time(s: &str) -> Option<OffsetDateTime> {
    let (len, has_t, has_z) = markers(s);
    let description = items(offset_description(len, has_t, has_z)?);
    if len < 25 {
        time::PrimitiveDateTime::parse(s, &description).ok().map(|p| offset_of(p.assume_utc()))
    } else {
        time::OffsetDateTime::parse(s, &description).ok().map(offset_of)
    }
}

fn primitive_by_time(s: &str) -> Option<PrimitiveDateTime> {
    let (len, has_t, has_z) = markers(s);
    let description = items(primitive_description(len, has_t, has_z)?);
    time::PrimitiveDateTime::parse(s, &description).ok().map(primitive_of)
}

fn date_by_time(s: &str) -> Option<Date> {
    time::Date::parse(s, &items("[year]-[month]-[day]")).ok().map(date_of)
}

fn time_by_time(s: &str) -> Option<Time> {
    let description = match s.len() {
        5 => "[hour]:[minute]",
        8 => "[hour]:[minute]:[second]",
        10 | 11 | 12 => "[hour]:[minute]:[second].[subsecond]",
        _ => return None,
    };
    time::Time::parse(s, &items(description)).ok().map(time_of)
}

/// `base`, and `base` with each of its characters replaced in turn by each
/// character of `with`.
fn variants(base: &str, with: &str) -> Vec<String> {
    let chars: Vec<char> = base.chars().collect();
    let mut all = vec![base.to_string()];
    for at in 0..chars.len() {
        for c in with.chars() {
            let mut changed = chars.clone();
            changed[at] = c;
            all.push(changed.into_iter().collect());
        }
    }
    all
}

/// Whether the text begins with a sign. `time` takes a sign before the year;
/// the patterns of this codec begin with a digit.
fn signed(s: &str) -> bool {
    s.starts_with('+') || s.starts_with('-')
}

const REPLACEMENTS: &str = "0123456789 T:.Z+-ax\u{e9}";

#[test]
fn timestamps_with_an_offset_are_read_as_time_reads_them() {
    let bases = [
        "2013-10-07 08:23:19",
        "2013-10-07T08:23:19",
        "2013-10-07 08:23:19Z",
        "2013-10-07T08:23:19Z",
        "2013-10-07 08:23:19.120",
        "2013-10-07T08:23:19.120",
        "2013-10-07T08:23:19.1204",
        "2013-10-07 08:23:19.120Z",
        "2013-10-07T08:23:19.120Z",
        "2013-10-07 04:23:19-04:00",
        "2013-10-07T04:23:19+05:30",
        "2013-10-07 08:23:19: +04:00",
        "2013-10-07 08:23:19:1 +04:00",
        "2013-10-07 04:23:19.120-04:00",
        "2013-10-07T04:23:19.120+14:00",
        "2024-02-29 23:59:59",
        "1900-02-28 00:00:00+00:00",
    ];
    let mut compared = 0;
    let mut accepted = 0;
    for base in bases {
        for text in variants(base, REPLACEMENTS) {
            if signed(&text) {
                continue;
            }
            let ours = OffsetDateTime::column_result(&text).ok();
            assert_eq!(ours, offset_by_time(&text), "{text:?}");
            compared += 1;
            if ours.is_some() {
                accepted += 1;
            }
        }
    }
    assert!(compared > 5000);
    assert!(accepted > 1000);
}

#[test]
fn timestamps_without_an_offset_are_read_as_time_reads_them() {
    let bases = [
        "2013-10-07 08:23:19",
        "2013-10-07T08:23:19",
        "2013-10-07 08:23:19Z",
        "2013-10-07T08:23:19Z",
        "2013-10-07 08:23:19.111",
        "2013-10-07T08:23:19.111",
        "2013-10-07 08:23:19.111Z",
        "2013-10-07T08:23:19.111Z",
        "2013-10-07T08:23:19.1111",
        "2013-10-07 04:23:19-04:00",
        "2023-02-28 12:00:00",
    ];
    let mut accepted = 0;
    for base in bases {
        for text in variants(base, REPLACEMENTS) {
            if signed(&text) {
                continue;
            }
            let ours = PrimitiveDateTime::column_result(&text).ok();
            assert_eq!(ours, primitive_by_time(&text), "{text:?}");
            if ours.is_some() {
                accepted += 1;
            }
        }
    }
    assert!(accepted > 500);
}

#[test]
fn dates_are_read_as_time_reads_them() {
    let bases = [
        "2013-10-07",
        "2024-02-29",
        "2023-02-28",
        "1900-02-28",
        "2000-12-31",
        "0000-01-01",
        "9999-12-31",
        "2013-10-7",
        "2013-10-077",
        "",
    ];
    let mut accepted = 0;
    for base in bases {
        for text in variants(base, REPLACEMENTS) {
            if signed(&text) {
                continue;
            }
            let ours = Date::column_result(&text).ok();
            assert_eq!(ours, date_by_time(&text), "{text:?}");
            if ours.is_some() {
                accepted += 1;
            }
        }
    }
    assert!(accepted > 100);
}

#[test]
fn times_of_day_are_read_as_time_reads_them() {
    let bases = [
        "08:23",
        "08:23:19",
        "08:23:19.1",
        "08:23:19.11",
        "08:23:19.111",
        "23:59:59.999",
        "00:00:00.0",
        "08:23:1",
        "08:23:19.",
        "08:23:19.1111",
    ];
    let mut accepted = 0;
    for base in bases {
        for text in variants(base, REPLACEMENTS) {
            let ours = Time::column_result(&text).ok();
            assert_eq!(ours, time_by_time(&text), "{text:?}");
            if ours.is_some() {
                accepted += 1;
            }
        }
    }
    assert!(accepted > 100);
}

/// Every day of the years around a change of century, and some years far
/// from now.
fn some_dates() -> Vec<time::Date> {
    let mut dates = vec![];
    for year in [0, 1, 4, 100, 400, 1899, 1900, 1969, 1970, 1999, 2000, 2023, 2024, 2100, 9999] {
        let mut day = time::Date::from_calendar_date(year, time::Month::January, 1).unwrap();
        while day.year() == year {
            dates.push(day);
            match day.next_day() {
                Some(next) => day = next,
                None => break,
            }
        }
    }
    dates
}

#[test]
fn dates_are_written_as_time_writes_them() {
    let description = items("[year]-[month]-[day]");
    let dates = some_dates();
    assert!(dates.len() > 5000);
    for day in dates {
        let ours = date_of(day);
        assert!(ours.valid());
        let text = ours.to_sql().unwrap();
        assert_eq!(text, day.format(&description).unwrap());
        assert_eq!(Date::column_result(&text), Ok(ours));
    }
}

#[test]
fn days_are_counted_as_time_counts_them() {
    let epoch = time::Date::from_calendar_date(1970, time::Month::January, 1).unwrap();
    for day in some_dates() {
        let expected = (day.to_julian_day() - epoch.to_julian_day()) as i64;
        assert_eq!(date_of(day).count_days_since_epoch(), expected, "{day}");
    }
}

#[test]
fn times_of_day_are_written_as_time_writes_them() {
    let description = items("[hour]:[minute]:[second].[subsecond]");
    let nanoseconds = [
        0, 1, 10, 999, 1_000, 120_000, 1_000_000, 111_000_000, 120_000_000, 100_000_000,
        999_000_000, 999_999_999, 500_000_000, 123_456_789, 10_000_000,
    ];
    for (hour, minute, second) in [(0, 0, 0), (8, 23, 19), (23, 59, 59), (12, 0, 7)] {
        for nanosecond in nanoseconds {
            let t = time::Time::from_hms_nano(hour, minute, second, nanosecond).unwrap();
            let text = time_of(t).to_sql().unwrap();
            assert_eq!(text, t.format(&description).unwrap());
            let read = Time::column_result(&text);
            if nanosecond % 1_000_000 == 0 {
                assert_eq!(read, Ok(time_of(t)));
            } else {
                assert!(read.is_err());
            }
        }
    }
}

#[test]
fn timestamps_are_written_as_time_writes_them() {
    let with_offset = items(
        "[year]-[month]-[day] [hour]:[minute]:[second][offset_hour sign:mandatory]:[offset_minute]",
    );
    let without = items("[year]-[month]-[day] [hour]:[minute]:[second]");
    let offsets = [(0, 0), (-4, 0), (5, 30), (-9, -30), (14, 0), (-12, 0), (0, -30), (0, 45), (25, 59), (-25, -59)];
    let shown = [
        (2013, 10, 7, 8, 23, 19, 0),
        (2013, 10, 7, 8, 23, 19, 120_000_000),
        (1970, 1, 1, 0, 0, 0, 0),
        (2024, 2, 29, 23, 59, 59, 999_999_999),
        (9999, 12, 31, 23, 59, 59, 0),
        (0, 1, 1, 0, 0, 0, 1),
    ];
    for (year, month, day, hour, minute, second, nanosecond) in shown {
        let date =
            time::Date::from_calendar_date(year, time::Month::try_from(month).unwrap(), day)
                .unwrap();
        let clock = time::Time::from_hms_nano(hour, minute, second, nanosecond).unwrap();
        let primitive = time::PrimitiveDateTime::new(date, clock);
        assert_eq!(
            primitive_of(primitive).to_sql().unwrap(),
            primitive.format(&without).unwrap()
        );
        for (hours, minutes) in offsets {
            let aware =
                primitive.assume_offset(time::UtcOffset::from_hms(hours, minutes, 0).unwrap());
            let ours = offset_of(aware);
            assert_eq!(ours.offset, UtcOffset { hours, minutes });
            assert_eq!(ours.to_sql().unwrap(), aware.format(&with_offset).unwrap());
            assert_eq!(ours.unix_timestamp_nanos(), aware.unix_timestamp_nanos());
        }
    }
}

#[test]
fn instants_become_the_timestamps_that_time_makes_of_them() {
    let mut instants: Vec<i128> = vec![
        0,
        -1,
        1,
        10_000 * 1_000_000_000,
        10_000 * 1_000_000_000 + 1000,
        1_500_391_124_001_000_000,
        2_000_000_000_002_000_000,
        3_000_000_000_999_999_999,
        10_000_000_000 * 1_000_000_000,
        -377_705_116_800_000_000_000,
        253_402_300_799_999_999_999,
        -62_167_219_200_000_000_000,
        951_782_400_000_000_000,
        951_868_799_999_999_999,
        -2_208_988_800_000_000_000,
    ];
    // A stride that is no whole number of days, through all the years.
    let mut at: i128 = -377_705_116_800_000_000_000;
    while at < 253_402_300_800_000_000_000 {
        instants.push(at);
        at += 86_400_000_000_000 * 97 + 3_601_000_000_007;
    }
    assert!(instants.len() > 70_000);
    for nanos in instants {
        let theirs = time::OffsetDateTime::from_unix_timestamp_nanos(nanos).unwrap();
        let ours = OffsetDateTime::from_unix_timestamp_nanos(nanos).unwrap();
        assert_eq!(ours, offset_of(theirs), "{nanos}");
        assert!(ours.valid());
        assert_eq!(ours.unix_timestamp_nanos(), nanos);
        assert_eq!(
            Date::from_days_since_epoch(ours.date_time.date.count_days_since_epoch()),
            Ok(ours.date_time.date)
        );
    }
}
