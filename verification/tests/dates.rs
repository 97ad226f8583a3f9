use tantiny::dates::{parse_date, timestamp_from};
use tantiny::error::Error;

#[test]
fn epoch_is_zero() {
    assert_eq!(parse_date("1970-01-01T00:00:00Z"), Ok(0));
}

#[test]
fn timestamp_counts_nanoseconds() {
    assert_eq!(parse_date("1970-01-01T00:00:01Z"), Ok(1_000_000_000));
    assert_eq!(parse_date("1970-01-01T00:00:00.000000001Z"), Ok(1));
    assert_eq!(parse_date("2001-09-09T01:46:40Z"), Ok(1_000_000_000_000_000_000));
    assert_eq!(parse_date("1969-12-31T23:59:59Z"), Ok(-1_000_000_000));
}

#[test]
fn offset_is_taken_into_account() {
    assert_eq!(parse_date("1970-01-01T01:00:00+01:00"), Ok(0));
    assert_eq!(parse_date("1969-12-31T19:00:00-05:00"), Ok(0));
}

#[test]
fn other_text_is_no_date() {
    assert_eq!(parse_date(""), Err(Error::InvalidDateFormat));
    assert_eq!(parse_date("1970-01-01"), Err(Error::InvalidDateFormat));
    assert_eq!(parse_date("1970-01-01 00:00:00"), Err(Error::InvalidDateFormat));
    assert_eq!(parse_date("1970-13-01T00:00:00Z"), Err(Error::InvalidDateFormat));
    assert_eq!(parse_date("yesterday"), Err(Error::InvalidDateFormat));
}

#[test]
fn timestamp_has_to_fit_64_bits() {
    assert_eq!(parse_date("2262-04-11T23:47:16.854775807Z"), Ok(i64::MAX));
    assert_eq!(parse_date("2262-04-11T23:47:16.854775808Z"), Err(Error::InvalidDateFormat));
    assert_eq!(parse_date("1677-09-21T00:12:43.145224192Z"), Ok(i64::MIN));
    assert_eq!(parse_date("1677-09-21T00:12:43.145224191Z"), Err(Error::InvalidDateFormat));
}

#[test]
fn timestamp_from_narrows_parsed_dates() {
    assert_eq!(timestamp_from(None), Err(Error::InvalidDateFormat));
    assert_eq!(timestamp_from(Some(0)), Ok(0));
    assert_eq!(timestamp_from(Some(-5)), Ok(-5));
    assert_eq!(timestamp_from(Some(i64::MAX as i128)), Ok(i64::MAX));
    assert_eq!(timestamp_from(Some(i64::MIN as i128)), Ok(i64::MIN));
    assert_eq!(timestamp_from(Some(i64::MAX as i128 + 1)), Err(Error::InvalidDateFormat));
    assert_eq!(timestamp_from(Some(i64::MIN as i128 - 1)), Err(Error::InvalidDateFormat));
}
