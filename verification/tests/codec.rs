//! The codec on the texts that a SQL engine hands out and takes in, held
//! against the `time` crate's own reading of the same texts.

use sql_time::{Date, OffsetDateTime, PrimitiveDateTime, Time, UtcOffset};
use time::format_description::well_known::Rfc3339;
use time::format_description::{parse_borrowed, BorrowedFormatItem};

fn pattern(description: &str) -> Vec<BorrowedFormatItem<'_>> {
    parse_borrowed::<2>(description).unwrap()
}

fn date_from(d: time::Date) -> Date {
    Date { year: d.year(), month: u8::from(d.month()), day: d.day() }
}

fn time_from(t: time::Time) -> Time {
    Time { hour: t.hour(), minute: t.minute(), second: t.second(), nanosecond: t.nanosecond() }
}

fn primitive_from(p: time::PrimitiveDateTime) -> PrimitiveDateTime {
    PrimitiveDateTime { date: date_from(p.date()), time: time_from(p.time()) }
}

fn offset_from(t: time::OffsetDateTime) -> OffsetDateTime {
    OffsetDateTime {
        date_time: PrimitiveDateTime { date: date_from(t.date()), time: time_from(t.time()) },
        offset: UtcOffset {
            hours: t.offset().whole_hours(),
            minutes: t.offset().minutes_past_hour(),
        },
    }
}

fn offset_into(v: OffsetDateTime) -> time::OffsetDateTime {
    let date = time::Date::from_calendar_date(
        v.date_time.date.year,
        time::Month::try_from(v.date_time.date.month).unwrap(),
        v.date_time.date.day,
    )
    .unwrap();
    let clock = time::Time::from_hms_nano(
        v.date_time.time.hour,
        v.date_time.time.minute,
        v.date_time.time.second,
        v.date_time.time.nanosecond,
    )
    .unwrap();
    let offset = time::UtcOffset::from_hms(v.offset.hours, v.offset.minutes, 0).unwrap();
    time::PrimitiveDateTime::new(date, clock).assume_offset(offset)
}

fn start_of_second(v: OffsetDateTime) -> OffsetDateTime {
    let mut at_start = v;
    at_start.date_time.time.nanosecond = 0;
    at_start
}

#[test]
fn test_offset_date_time() {
    let mut ts_vec = vec![];

    let make_datetime = |secs: i128, nanos: i128| {
        time::OffsetDateTime::from_unix_timestamp_nanos(1_000_000_000 * secs + nanos).unwrap()
    };

    ts_vec.push(make_datetime(10_000, 0)); //January 1, 1970 2:46:40 AM
    ts_vec.push(make_datetime(10_000, 1000)); //January 1, 1970 2:46:40 AM (and one microsecond)
    ts_vec.push(make_datetime(1_500_391_124, 1_000_000)); //July 18, 2017
    ts_vec.push(make_datetime(2_000_000_000, 2_000_000)); //May 18, 2033
    ts_vec.push(make_datetime(3_000_000_000, 999_999_999)); //January 24, 2065
    ts_vec.push(make_datetime(10_000_000_000, 0)); //November 20, 2286

    for ts in ts_vec {
        let value = offset_from(ts);
        let text = value.to_sql().unwrap();
        let from = OffsetDateTime::column_result(&text).unwrap();

        // The written form has no subsecond: what comes back is the start of
        // the second, and the timestamp itself where it had no subsecond.
        assert_eq!(from, start_of_second(value));
        assert_eq!(offset_into(from), ts.replace_nanosecond(0).unwrap());
        if ts.nanosecond() == 0 {
            assert_eq!(offset_into(from), ts);
        }
    }
}

#[test]
fn test_offset_date_time_parsing() {
    let tests = vec![
        (
            "2013-10-07 08:23:19",
            time::OffsetDateTime::parse("2013-10-07T08:23:19Z", &Rfc3339).unwrap(),
        ),
        (
            "2013-10-07 08:23:19Z",
            time::OffsetDateTime::parse("2013-10-07T08:23:19Z", &Rfc3339).unwrap(),
        ),
        (
            "2013-10-07T08:23:19Z",
            time::OffsetDateTime::parse("2013-10-07T08:23:19Z", &Rfc3339).unwrap(),
        ),
        (
            "2013-10-07 08:23:19.120",
            time::OffsetDateTime::parse("2013-10-07T08:23:19.120Z", &Rfc3339).unwrap(),
        ),
        (
            "2013-10-07 08:23:19.120Z",
            time::OffsetDateTime::parse("2013-10-07T08:23:19.120Z", &Rfc3339).unwrap(),
        ),
        (
            "2013-10-07T08:23:19.120Z",
            time::OffsetDateTime::parse("2013-10-07T08:23:19.120Z", &Rfc3339).unwrap(),
        ),
        (
            "2013-10-07 04:23:19-04:00",
            time::OffsetDateTime::parse("2013-10-07T04:23:19-04:00", &Rfc3339).unwrap(),
        ),
        (
            "2013-10-07 04:23:19.120-04:00",
            time::OffsetDateTime::parse("2013-10-07T04:23:19.120-04:00", &Rfc3339).unwrap(),
        ),
        (
            "2013-10-07T04:23:19.120-04:00",
            time::OffsetDateTime::parse("2013-10-07T04:23:19.120-04:00", &Rfc3339).unwrap(),
        ),
    ];

    for (s, t) in tests {
        let result = OffsetDateTime::column_result(s).unwrap();
        assert_eq!(result, offset_from(t));
        assert_eq!(offset_into(result), t);
    }
}

#[test]
fn test_sqlite_functions_offset_date_time() {
    // What `SELECT CURRENT_TIMESTAMP` gives: `YYYY-MM-DD HH:MM:SS`, in UTC.
    let now = time::OffsetDateTime::now_utc();
    let current_timestamp = primitive_from(time::PrimitiveDateTime::new(now.date(), now.time()))
        .to_sql()
        .unwrap();
    assert_eq!(current_timestamp.len(), 19);
    let value = OffsetDateTime::column_result(&current_timestamp).unwrap();
    assert_eq!(offset_into(value), now.replace_nanosecond(0).unwrap());
}

#[test]
fn test_sqlite_functions_time() {
    // What `SELECT CURRENT_TIME` gives: `HH:MM:SS`.
    let now = time::OffsetDateTime::now_utc();
    let current_time = format!("{:02}:{:02}:{:02}", now.hour(), now.minute(), now.second());
    let value = Time::column_result(&current_time).unwrap();
    assert_eq!(
        value,
        Time { hour: now.hour(), minute: now.minute(), second: now.second(), nanosecond: 0 }
    );
}

#[test]
fn test_sqlite_functions_date() {
    // What `SELECT CURRENT_DATE` gives: `YYYY-MM-DD`.
    let now = time::OffsetDateTime::now_utc();
    let current_date = date_from(now.date()).to_sql().unwrap();
    assert_eq!(current_date.len(), 10);
    let value = Date::column_result(&current_date).unwrap();
    assert_eq!(value, date_from(now.date()));
}

#[test]
fn test_param_offset_date_time() {
    // `?1 BETWEEN datetime('now', '-1 minute') AND datetime('now', '+1 minute')`:
    // the engine compares the texts.
    let now = time::OffsetDateTime::now_utc();
    let datetime = |at: time::OffsetDateTime| {
        primitive_from(time::PrimitiveDateTime::new(at.date(), at.time())).to_sql().unwrap()
    };
    let param = offset_from(now).to_sql().unwrap();
    let result: bool = datetime(now - time::Duration::minutes(1)) <= param
        && param <= datetime(now + time::Duration::minutes(1));
    assert!(result);
}

#[test]
fn test_param_date() {
    // `?1 BETWEEN date('now', '-1 day') AND date('now', '+1 day')`: the
    // engine compares the texts.
    let now = time::OffsetDateTime::now_utc();
    let date = |at: time::OffsetDateTime| date_from(at.date()).to_sql().unwrap();
    let param = offset_from(now).to_sql().unwrap();
    let result: bool =
        date(now - time::Duration::days(1)) <= param && param <= date(now + time::Duration::days(1));
    assert!(result);
}

#[test]
fn test_date_parsing() {
    let date_format = pattern("[year]-[month]-[day]");
    let result = Date::column_result("2013-10-07").unwrap();
    assert_eq!(result, date_from(time::Date::parse("2013-10-07", &date_format).unwrap()));
    assert_eq!(result, Date { year: 2013, month: 10, day: 7 });
}

#[test]
fn test_time_parsing() {
    let time_format = pattern("[hour]:[minute]");
    let time_format_seconds = pattern("[hour]:[minute]:[second]");
    let time_format_seconds_subseconds = pattern("[hour]:[minute]:[second].[subsecond]");
    let tests = vec![
        ("08:23", time::Time::parse("08:23", &time_format).unwrap()),
        ("08:23:19", time::Time::parse("08:23:19", &time_format_seconds).unwrap()),
        (
            "08:23:19.111",
            time::Time::parse("08:23:19.111", &time_format_seconds_subseconds).unwrap(),
        ),
    ];

    for (s, t) in tests {
        let result = Time::column_result(s).unwrap();
        assert_eq!(result, time_from(t));
    }
}

#[test]
fn test_primitive_date_time_parsing() {
    let plain = pattern("[year]-[month]-[day] [hour]:[minute]:[second]");
    let plain_z = pattern("[year]-[month]-[day] [hour]:[minute]:[second]Z");
    let subseconds = pattern("[year]-[month]-[day] [hour]:[minute]:[second].[subsecond]");
    let subseconds_z = pattern("[year]-[month]-[day] [hour]:[minute]:[second].[subsecond]Z");
    let t = pattern("[year]-[month]-[day]T[hour]:[minute]:[second]");
    let t_z = pattern("[year]-[month]-[day]T[hour]:[minute]:[second]Z");
    let t_subseconds = pattern("[year]-[month]-[day]T[hour]:[minute]:[second].[subsecond]");
    let t_subseconds_z = pattern("[year]-[month]-[day]T[hour]:[minute]:[second].[subsecond]Z");

    let tests = vec![
        (
            "2013-10-07T08:23:19",
            time::PrimitiveDateTime::parse("2013-10-07T08:23:19", &t).unwrap(),
        ),
        (
            "2013-10-07T08:23:19Z",
            time::PrimitiveDateTime::parse("2013-10-07T08:23:19Z", &t_z).unwrap(),
        ),
        (
            "2013-10-07T08:23:19.111",
            time::PrimitiveDateTime::parse("2013-10-07T08:23:19.111", &t_subseconds).unwrap(),
        ),
        (
            "2013-10-07T08:23:19.111Z",
            time::PrimitiveDateTime::parse("2013-10-07T08:23:19.111Z", &t_subseconds_z).unwrap(),
        ),
        (
            "2013-10-07 08:23:19",
            time::PrimitiveDateTime::parse("2013-10-07 08:23:19", &plain).unwrap(),
        ),
        (
            "2013-10-07 08:23:19Z",
            time::PrimitiveDateTime::parse("2013-10-07 08:23:19Z", &plain_z).unwrap(),
        ),
        (
            "2013-10-07 08:23:19.111",
            time::PrimitiveDateTime::parse("2013-10-07 08:23:19.111", &subseconds).unwrap(),
        ),
        (
            "2013-10-07 08:23:19.111Z",
            time::PrimitiveDateTime::parse("2013-10-07 08:23:19.111Z", &subseconds_z).unwrap(),
        ),
        (
            "2013-10-07T08:23:19.111Z",
            time::PrimitiveDateTime::parse("2013-10-07T08:23:19.111Z", &t_subseconds_z).unwrap(),
        ),
    ];

    for (s, t) in tests {
        let result = PrimitiveDateTime::column_result(s).unwrap();
        assert_eq!(result, primitive_from(t));
    }
}
