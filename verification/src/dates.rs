//! Dates: RFC 3339 text to nanoseconds since the Unix epoch.

use vstd::prelude::*;
use crate::engine::dates::{parse_rfc3339, rfc3339_nanos};
use crate::error::Error;

verus! {

/// The timestamp of a parsed date: the nanoseconds where the text was an
/// RFC 3339 timestamp and they fit 64 bits, and a format error otherwise.
pub open spec fn timestamp_of(parsed: Option<i128>) -> Result<i64, Error> {
    match parsed {
        Some(nanos) => if i64::MIN <= nanos <= i64::MAX {
            Ok(nanos as i64)
        } else {
            Err(Error::InvalidDateFormat)
        },
        None => Err(Error::InvalidDateFormat),
    }
}

/// The timestamp of a date text.
pub open spec fn date_nanos(text: Seq<char>) -> Result<i64, Error> {
    timestamp_of(rfc3339_nanos(text))
}

/// Narrows a parsed date to the 64-bit timestamp that the engine keeps. A text
/// that did not parse, and a date outside the 64-bit range, is a format error.
pub fn timestamp_from(parsed: Option<i128>) -> (timestamp: Result<i64, Error>)
    ensures
        timestamp == timestamp_of(parsed),
{
    match parsed {
        Some(nanos) => {
            if nanos < -0x8000_0000_0000_0000i128 || nanos > 0x7FFF_FFFF_FFFF_FFFFi128 {
                Err(Error::InvalidDateFormat)
            } else {
                Ok(nanos as i64)
            }
        },
        None => Err(Error::InvalidDateFormat),
    }
}

/// Reads an RFC 3339 timestamp as nanoseconds since the Unix epoch. Any other
/// text is refused, never coerced.
pub fn parse_date(text: &str) -> (timestamp: Result<i64, Error>)
    ensures
        timestamp == date_nanos(text@),
{
    timestamp_from(parse_rfc3339(text))
}

} // verus!
