//! RFC 3339 timestamps, read by the `time` crate.

use vstd::prelude::*;

verus! {

/// The nanoseconds since the Unix epoch of an RFC 3339 timestamp, or `None`
/// for a text that is no such timestamp.
pub uninterp spec fn rfc3339_nanos(text: Seq<char>) -> Option<i128>;

/// `OffsetDateTime::parse` with the `Rfc3339` format, then
/// `OffsetDateTime::unix_timestamp_nanos`.
#[verifier::external_body]
pub(crate) fn parse_rfc3339(text: &str) -> (nanos: Option<i128>)
    ensures
        nanos == rfc3339_nanos(text@),
{
    time::OffsetDateTime::parse(text, &time::format_description::well_known::Rfc3339)
        .ok()
        .map(|moment| moment.unix_timestamp_nanos())
}

} // verus!
