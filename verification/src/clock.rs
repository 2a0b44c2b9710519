//! Times written as RFC 3339 prescribes.
use vstd::prelude::*;

verus! {

/// What chrono reads from an RFC 3339 time: the seconds since 1970 in UTC, and the seconds by which
/// the local time is ahead of UTC.
pub uninterp spec fn instant_of(text: Seq<char>) -> Option<(i64, i32)>;

/// What chrono reads from two RFC 3339 times: the whole seconds from the first to the second.
pub uninterp spec fn seconds_from_to(first: Seq<char>, second: Seq<char>) -> Option<i64>;

/// `chrono::DateTime::parse_from_rfc3339`, with `timestamp` and `offset().local_minus_utc()` of
/// what it returns. The contract says that the result is a function of the text; what the function
/// is, it leaves unsaid.
#[verifier::external_body]
pub(crate) fn read_instant(text: &str) -> (r: Option<(i64, i32)>)
    ensures
        r == instant_of(text@),
{
    match chrono::DateTime::parse_from_rfc3339(text) {
        Ok(t) => Some((t.timestamp(), t.offset().local_minus_utc())),
        Err(_) => None,
    }
}

/// `chrono::DateTime::parse_from_rfc3339` on both texts, then `signed_duration_since` with
/// `num_seconds`. The contract says that the result is a function of the two texts; what the
/// function is, it leaves unsaid.
#[verifier::external_body]
pub(crate) fn read_seconds_between(first: &str, second: &str) -> (r: Option<i64>)
    ensures
        r == seconds_from_to(first@, second@),
{
    match (
        chrono::DateTime::parse_from_rfc3339(first),
        chrono::DateTime::parse_from_rfc3339(second),
    ) {
        (Ok(a), Ok(b)) => Some(b.signed_duration_since(a).num_seconds()),
        _ => None,
    }
}

/// The whole minutes in a number of seconds, counted towards zero.
pub open spec fn whole_minutes(seconds: int) -> int {
    if seconds >= 0 {
        seconds / 60
    } else {
        -((-seconds) / 60)
    }
}

/// The whole minutes in a number of seconds, counted towards zero.
pub fn minutes(seconds: i32) -> (r: i32)
    ensures
        r == whole_minutes(seconds as int),
{
    if seconds >= 0 {
        seconds / 60
    } else {
        let back: i64 = -(seconds as i64);
        let m: i64 = back / 60;
        -(m as i32)
    }
}

} // verus!
