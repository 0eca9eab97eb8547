use chrono::{NaiveDateTime, TimeZone, Utc};
use news_sync::time::{
    day_start, timestamp_from_parse, to_datetime, DateRange, DateRangeError, Timestamp, TimestampError,
    MAX_SECONDS, MIN_SECONDS,
};

#[test]
fn news_search_client_gdeltproject_test_to_datetime() {
    let date = to_datetime(&"20230624T121500Z".to_string()).unwrap();
    let d = Utc.with_ymd_and_hms(2023, 6, 24, 12, 15, 0).unwrap();
    assert_eq!(date.seconds(), d.timestamp());
    let invalid_date = to_datetime(&"invalid_date".to_string());
    assert!(invalid_date.is_err());
}

#[test]
fn news_search_adapter_gdeltproject_test_to_datetime() {
    let date = to_datetime(&"20230624T121500Z".to_string()).unwrap();
    let d = Utc.with_ymd_and_hms(2023, 6, 24, 12, 15, 0).unwrap();
    assert_eq!(date.seconds(), d.timestamp());
    let invalid_date = to_datetime(&"invalid_date".to_string());
    assert!(invalid_date.is_err());
}

#[test]
fn to_datetime_gives_exact_seconds() {
    let date = to_datetime(&"20230624T121500Z".to_string()).unwrap();
    assert_eq!(date.seconds(), 1_687_608_900);
    assert_eq!(to_datetime(&"19700101T000000Z".to_string()).unwrap().seconds(), 0);
}

#[test]
fn to_datetime_says_why_it_fails() {
    assert_eq!(to_datetime(&"invalid_date".to_string()), Err(TimestampError::Unreadable));
    assert_eq!(to_datetime(&"".to_string()), Err(TimestampError::Unreadable));
    assert_eq!(to_datetime(&"20231324T121500Z".to_string()), Err(TimestampError::Unreadable));
    assert_eq!(to_datetime(&"+10000 0101T000000Z".to_string()), Err(TimestampError::OutOfSpan));
    assert_eq!(to_datetime(&"-0001 1231T235959Z".to_string()), Err(TimestampError::OutOfSpan));
}

#[test]
fn timestamp_covers_years_0000_to_9999() {
    let first = Utc.with_ymd_and_hms(0, 1, 1, 0, 0, 0).unwrap().timestamp();
    let last = Utc.with_ymd_and_hms(9999, 12, 31, 23, 59, 59).unwrap().timestamp();
    assert_eq!(MIN_SECONDS, first);
    assert_eq!(MAX_SECONDS, last);
    assert_eq!(Timestamp::new(first).unwrap().seconds(), first);
    assert_eq!(Timestamp::new(last).unwrap().seconds(), last);
    assert!(Timestamp::new(first - 1).is_none());
    assert!(Timestamp::new(last + 1).is_none());
    assert_eq!(to_datetime(&"00000101T000000Z".to_string()).unwrap().seconds(), first);
    assert_eq!(to_datetime(&"99991231T235959Z".to_string()).unwrap().seconds(), last);
}

#[test]
fn window_text_has_fourteen_digits() {
    assert_eq!(Timestamp::new(0).unwrap().to_window_text(), "19700101000000");
    assert_eq!(Timestamp::new(1_687_608_900).unwrap().to_window_text(), "20230624121500");
    assert_eq!(Timestamp::new(MIN_SECONDS).unwrap().to_window_text(), "00000101000000");
    assert_eq!(Timestamp::new(MAX_SECONDS).unwrap().to_window_text(), "99991231235959");
}

#[test]
fn timestamps_compare_by_second() {
    let a = Timestamp::new(100).unwrap();
    let b = Timestamp::new(101).unwrap();
    assert!(a.is_before(&b));
    assert!(!b.is_before(&a));
    assert!(!a.is_before(&a));
    assert!(a.is_same(&a));
    assert!(!a.is_same(&b));
    assert_eq!(a, Timestamp::new(100).unwrap());
}

#[test]
fn timestamp_from_parse_keeps_what_the_parser_read() {
    let read = NaiveDateTime::parse_from_str("20240101T000000Z", "%Y%m%dT%H%M%SZ").map(|t| t.and_utc().timestamp());
    assert_eq!(timestamp_from_parse(read).unwrap().seconds(), 1_704_067_200);
    let refused = NaiveDateTime::parse_from_str("x", "%Y%m%dT%H%M%SZ").map(|t| t.and_utc().timestamp());
    assert_eq!(timestamp_from_parse(refused), Err(TimestampError::Unreadable));
    let refused = NaiveDateTime::parse_from_str("x", "%Y%m%dT%H%M%SZ").map(|_| MAX_SECONDS + 1);
    assert_eq!(timestamp_from_parse(refused), Err(TimestampError::Unreadable));
    assert_eq!(timestamp_from_parse(Ok(MAX_SECONDS + 1)), Err(TimestampError::OutOfSpan));
    assert_eq!(timestamp_from_parse(Ok(MIN_SECONDS - 1)), Err(TimestampError::OutOfSpan));
    assert_eq!(timestamp_from_parse(Ok(MIN_SECONDS)).unwrap().seconds(), MIN_SECONDS);
}

#[test]
fn day_start_is_midnight_utc() {
    let day = day_start(&"2024-01-01".to_string()).unwrap();
    assert_eq!(day.seconds(), Utc.with_ymd_and_hms(2024, 1, 1, 0, 0, 0).unwrap().timestamp());
    assert_eq!(day.seconds(), 1_704_067_200);
    assert_eq!(day_start(&"2024-13-01".to_string()), Err(TimestampError::Unreadable));
    assert_eq!(day_start(&"20240101".to_string()), Err(TimestampError::Unreadable));
    assert_eq!(day_start(&"+10000-01-01".to_string()), Err(TimestampError::OutOfSpan));
}

#[test]
fn date_range_needs_start_before_end() {
    let a = Timestamp::new(100).unwrap();
    let b = Timestamp::new(200).unwrap();
    let range = DateRange::new(a, b).unwrap();
    assert_eq!(range.start(), a);
    assert_eq!(range.end(), b);
    assert_eq!(DateRange::new(b, a), Err(DateRangeError::InvalidDateRange));
    assert_eq!(DateRange::new(a, a), Err(DateRangeError::InvalidDateRange));
    let widest = DateRange::new(Timestamp::new(MIN_SECONDS).unwrap(), Timestamp::new(MAX_SECONDS).unwrap());
    assert!(widest.is_ok());
    let narrowest = DateRange::new(a, Timestamp::new(101).unwrap());
    assert!(narrowest.is_ok());
}

#[test]
fn date_range_covers_both_ends() {
    let range = DateRange::new(Timestamp::new(100).unwrap(), Timestamp::new(200).unwrap()).unwrap();
    assert!(range.covers(&Timestamp::new(100).unwrap()));
    assert!(range.covers(&Timestamp::new(150).unwrap()));
    assert!(range.covers(&Timestamp::new(200).unwrap()));
    assert!(!range.covers(&Timestamp::new(99).unwrap()));
    assert!(!range.covers(&Timestamp::new(201).unwrap()));
}

#[test]
fn date_range_error_in_words() {
    assert_eq!(DateRangeError::InvalidDateRange.message(), "Start date must be before end date");
}

#[test]
fn rfc3339_text_ends_in_the_offset_of_utc() {
    assert_eq!(Timestamp::new(0).unwrap().to_rfc3339(), "1970-01-01T00:00:00+00:00");
    assert_eq!(Timestamp::new(1_687_608_900).unwrap().to_rfc3339(), "2023-06-24T12:15:00+00:00");
    assert_eq!(
        Timestamp::new(1_687_608_900).unwrap().to_rfc3339(),
        Utc.with_ymd_and_hms(2023, 6, 24, 12, 15, 0).unwrap().to_rfc3339()
    );
    assert_eq!(Timestamp::new(MIN_SECONDS).unwrap().to_rfc3339(), "0000-01-01T00:00:00+00:00");
    assert_eq!(Timestamp::new(MAX_SECONDS).unwrap().to_rfc3339(), "9999-12-31T23:59:59+00:00");
}
