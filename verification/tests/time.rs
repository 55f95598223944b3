use chrono::{DateTime, NaiveDate, NaiveDateTime, Utc};
use deck_metrics::time::{Date, Timestamp, NANOS_PER_DAY, NANOS_PER_SEC, SECS_PER_DAY};

fn at(text: &str) -> Timestamp {
    Timestamp::parse(text).unwrap()
}

fn naive(text: &str) -> NaiveDateTime {
    text.parse::<DateTime<Utc>>().unwrap().naive_utc()
}

#[test]
fn constants_agree() {
    assert_eq!(NANOS_PER_SEC, 1_000_000_000);
    assert_eq!(SECS_PER_DAY, 86_400);
    assert_eq!(NANOS_PER_DAY, 86_400_000_000_000);
}

#[test]
fn new_takes_nanoseconds_below_a_second() {
    let t = Timestamp::new(12, 999_999_999).unwrap();
    assert_eq!(t.secs(), 12);
    assert_eq!(t.nanos(), 999_999_999);
    assert_eq!(Timestamp::new(12, 1_000_000_000), None);
    assert_eq!(Timestamp::new(-5, 0).unwrap().secs(), -5);
}

#[test]
fn from_reading_carries_a_second_numbered_sixty() {
    let t = Timestamp::from_reading(59, 1_500_000_000).unwrap();
    assert_eq!(t.secs(), 60);
    assert_eq!(t.nanos(), 500_000_000);
    assert_eq!(Timestamp::from_reading(59, 7), Timestamp::new(59, 7));
    assert_eq!(Timestamp::from_reading(59, 2_000_000_000), None);
    assert_eq!(Timestamp::from_reading(i64::MAX, 1_000_000_000), None);
    assert_eq!(
        Timestamp::from_reading(i64::MAX, 999_999_999),
        Timestamp::new(i64::MAX, 999_999_999)
    );
}

#[test]
fn parse_reads_the_instant_in_utc() {
    let t = at("2015-05-15T00:00:00Z");
    assert_eq!(t.secs(), 1_431_648_000);
    assert_eq!(t.nanos(), 0);
    let with_offset = at("2015-05-15T02:00:00.25+02:00");
    assert_eq!(with_offset.secs(), 1_431_648_000);
    assert_eq!(with_offset.nanos(), 250_000_000);
    assert_eq!(at("1969-12-31T23:59:59Z").secs(), -1);
}

#[test]
fn parse_agrees_with_chrono() {
    for text in [
        "2020-02-29T12:34:56.789Z",
        "1999-12-31T23:59:59-08:00",
        "2012-12-12 12:12:12Z",
        "0001-01-01T00:00:00Z",
    ] {
        let expected = text.parse::<DateTime<Utc>>().unwrap();
        let t = at(text);
        assert_eq!(t.secs(), expected.timestamp());
        assert_eq!(t.nanos(), expected.timestamp_subsec_nanos());
    }
}

#[test]
fn parse_refuses_what_is_no_date_and_time() {
    assert_eq!(Timestamp::parse(""), None);
    assert_eq!(Timestamp::parse("2020-01-01"), None);
    assert_eq!(Timestamp::parse("yesterday"), None);
    assert_eq!(Timestamp::parse("2020-13-01T00:00:00Z"), None);
    assert_eq!(Timestamp::parse("1431648000"), None);
}

#[test]
fn parse_carries_a_leap_second() {
    let t = at("2016-12-31T23:59:60Z");
    assert_eq!(t, at("2017-01-01T00:00:00Z"));
    let half = at("2016-12-31T23:59:60.5Z");
    assert_eq!(half.secs(), at("2017-01-01T00:00:00Z").secs());
    assert_eq!(half.nanos(), 500_000_000);
}

#[test]
fn day_number_counts_from_the_epoch() {
    assert_eq!(at("1970-01-01T00:00:00Z").day_number(), 0);
    assert_eq!(at("1970-01-01T23:59:59.999999999Z").day_number(), 0);
    assert_eq!(at("1970-01-02T00:00:00Z").day_number(), 1);
    assert_eq!(at("1969-12-31T23:59:59.999999999Z").day_number(), -1);
    assert_eq!(at("1969-12-31T00:00:00Z").day_number(), -1);
    assert_eq!(at("1969-12-30T23:59:59Z").day_number(), -2);
    assert_eq!(Timestamp::new(i64::MIN, 0).unwrap().day_number(), -106_751_991_167_301);
    assert_eq!(Timestamp::new(i64::MAX, 0).unwrap().day_number(), 106_751_991_167_300);
}

#[test]
fn day_number_agrees_with_chrono() {
    let epoch = NaiveDate::from_ymd_opt(1970, 1, 1).unwrap();
    for text in [
        "2020-02-29T12:34:56Z",
        "1969-07-20T20:17:40Z",
        "1600-03-01T00:00:00Z",
        "2999-12-31T23:59:59Z",
    ] {
        let expected = naive(text).date().signed_duration_since(epoch).num_days();
        assert_eq!(at(text).day_number(), expected);
    }
}

#[test]
fn days_since_rounds_toward_zero() {
    let start = at("2020-01-01T00:00:00Z");
    assert_eq!(at("2020-01-02T00:00:00Z").days_since(&start), 1);
    assert_eq!(at("2020-01-01T23:59:59.999999999Z").days_since(&start), 0);
    assert_eq!(start.days_since(&at("2020-01-01T23:59:59.999999999Z")), 0);
    assert_eq!(start.days_since(&at("2020-01-02T00:00:00Z")), -1);
    assert_eq!(start.days_since(&at("2020-01-03T12:00:00Z")), -2);
    assert_eq!(at("2020-01-03T12:00:00Z").days_since(&start), 2);
    assert_eq!(start.days_since(&start), 0);
}

#[test]
fn days_since_agrees_with_chrono() {
    let texts = [
        "2020-02-29T12:34:56.789Z",
        "2020-03-01T12:34:56.788Z",
        "1969-07-20T20:17:40Z",
        "2021-01-05T00:00:00Z",
        "2021-01-04T23:59:59.999999999Z",
    ];
    for a in texts {
        for b in texts {
            let expected = (naive(a) - naive(b)).num_days();
            assert_eq!(at(a).days_since(&at(b)), expected, "{} - {}", a, b);
        }
    }
}

#[test]
fn days_since_holds_the_widest_span() {
    let first = Timestamp::new(i64::MIN, 0).unwrap();
    let last = Timestamp::new(i64::MAX, 999_999_999).unwrap();
    assert_eq!(last.days_since(&first), 213_503_982_334_601);
    assert_eq!(first.days_since(&last), -213_503_982_334_601);
}

#[test]
fn window_starts_at_midnight_weeks_before_today() {
    let today = Date { day: 18_293 }; // 2020-02-01
    let midnight = at("2020-02-01T00:00:00Z");
    assert!(!midnight.after_window_start(today, 0));
    assert!(at("2020-02-01T00:00:00.000000001Z").after_window_start(today, 0));
    assert!(!at("2020-01-31T23:59:59.999999999Z").after_window_start(today, 0));
    assert!(!at("2020-01-25T00:00:00Z").after_window_start(today, 1));
    assert!(at("2020-01-25T00:00:01Z").after_window_start(today, 1));
    assert!(!at("2020-01-18T00:00:00Z").after_window_start(today, 2));
    assert!(at("2020-01-18T00:00:00.5Z").after_window_start(today, 2));
    assert!(midnight.after_window_start(today, u32::MAX));
    assert!(!midnight.after_window_start(Date { day: i32::MAX }, 0));
}
