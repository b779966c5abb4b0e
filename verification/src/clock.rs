use vstd::prelude::*;

verus! {

/// What `chrono::DateTime::parse_from_rfc3339` makes of a text: the instant it
/// denotes, in milliseconds since the Unix epoch, or `None` where it is no
/// RFC 3339 date and time.
pub uninterp spec fn rfc3339_millis(text: Seq<char>) -> Option<i64>;

/// Calls `chrono::DateTime::parse_from_rfc3339`, moves the instant to UTC with
/// `with_timezone` and reads it with `timestamp_millis`. The contract claims
/// only that the outcome is a function of the text.
#[verifier::external_body]
pub(crate) fn parse_rfc3339_millis(text: &str) -> (r: Option<i64>)
    ensures
        r == rfc3339_millis(text@),
{
    match chrono::DateTime::parse_from_rfc3339(text) {
        Ok(at) => Some(at.with_timezone(&chrono::Utc).timestamp_millis()),
        Err(_) => None,
    }
}

/// Calls `chrono::Utc::now` and reads it with `timestamp_millis`. Nothing is
/// claimed of the instant that comes back.
#[verifier::external_body]
pub(crate) fn utc_now_millis() -> i64 {
    chrono::Utc::now().timestamp_millis()
}

} // verus!
