//! Dates as the remote service writes them, and the current time.
use vstd::prelude::*;

verus! {

/// The instant an RFC 3339 date denotes, in whole seconds since the Unix
/// epoch, or `None` where the text is no such date.
pub uninterp spec fn rfc3339_seconds(s: Seq<char>) -> Option<i64>;

/// Relies on chrono's `DateTime::parse_from_rfc3339`, read through
/// `DateTime::timestamp`: whether the text parses and, if so, its instant.
#[verifier::external_body]
pub(crate) fn parse_rfc3339_seconds(s: &str) -> (r: Option<i64>)
    ensures
        r == rfc3339_seconds(s@),
{
    match chrono::DateTime::parse_from_rfc3339(s) {
        Ok(d) => Some(d.timestamp()),
        Err(_) => None,
    }
}

/// Relies on chrono's `Utc::now`, read through `DateTime::timestamp`: the
/// current time in whole seconds since the Unix epoch. Nothing is promised
/// of its value.
#[verifier::external_body]
pub(crate) fn now_seconds() -> i64 {
    chrono::Utc::now().timestamp()
}

} // verus!
