//! Commit dates as Unix timestamps.
use vstd::prelude::*;

verus! {

/// What `chrono::DateTime::parse_from_rfc3339` followed by `timestamp` gives
/// for a text: the seconds since the Unix epoch, or `None` when the text is not
/// an RFC 3339 date-time.
pub uninterp spec fn rfc3339_timestamp(s: Seq<char>) -> Option<i64>;

/// Calls `chrono::DateTime::parse_from_rfc3339` and, on success, `timestamp`.
/// The contract names the result `rfc3339_timestamp` of the text; it states
/// nothing of which texts parse or what they parse to.
#[verifier::external_body]
fn parse_rfc3339(s: &str) -> (r: Option<i64>)
    ensures
        r == rfc3339_timestamp(s@),
{
    match chrono::DateTime::parse_from_rfc3339(s) {
        Ok(dt) => Some(dt.timestamp()),
        Err(_) => None,
    }
}

/// The date a parsed timestamp gives, 0 when it did not parse.
pub open spec fn date_or_zero(parsed: Option<i64>) -> i64 {
    match parsed {
        Some(t) => t,
        None => 0,
    }
}

/// The date recorded for a parsed timestamp: the timestamp, or 0 when the
/// text did not parse.
pub fn date_from_parsed(parsed: Option<i64>) -> (t: i64)
    ensures
        t == date_or_zero(parsed),
{
    match parsed {
        Some(t) => t,
        None => 0,
    }
}

/// A commit's date from Git's strict ISO format (`%aI`): its Unix timestamp, or
/// 0 when the text does not parse.
pub fn commit_timestamp(s: &str) -> (t: i64)
    ensures
        t == date_or_zero(rfc3339_timestamp(s@)),
{
    date_from_parsed(parse_rfc3339(s))
}

} // verus!
