//! Calendar facts the enricher and the cache rely on. Date validity and
//! RFC 3339 timestamps are checked by chrono; everything else about dates
//! (recognizing the accepted shapes, renormalizing) is proved here.

use vstd::prelude::*;

verus! {

pub open spec fn spec_is_leap_year(y: int) -> bool {
    y % 4 == 0 && (y % 100 != 0 || y % 400 == 0)
}

pub open spec fn spec_days_in_month(y: int, m: int) -> int {
    if m == 2 {
        if spec_is_leap_year(y) {
            29
        } else {
            28
        }
    } else if m == 4 || m == 6 || m == 9 || m == 11 {
        30
    } else {
        31
    }
}

/// A real date of the proleptic Gregorian calendar.
pub open spec fn spec_valid_ymd(y: int, m: int, d: int) -> bool {
    1 <= m <= 12 && 1 <= d <= spec_days_in_month(y, m)
}

/// Relies on `chrono::NaiveDate::from_ymd_opt`: it returns `Some` exactly
/// for dates valid in the proleptic Gregorian calendar; every four-digit
/// year lies inside chrono's supported year range.
#[verifier::external_body]
pub(crate) fn ymd_is_valid(y: i32, m: u32, d: u32) -> (r: bool)
    requires
        0 <= y <= 9999,
    ensures
        r == spec_valid_ymd(y as int, m as int, d as int),
{
    chrono::NaiveDate::from_ymd_opt(y, m, d).is_some()
}

/// The instant an RFC 3339 timestamp denotes, in Unix seconds, when the
/// string is one; what `chrono::DateTime::parse_from_rfc3339` computes.
pub uninterp spec fn rfc3339_to_unix(s: Seq<char>) -> Option<i64>;

/// Relies on `chrono::DateTime::parse_from_rfc3339` (and `timestamp`): the
/// result is a function of the characters alone.
#[verifier::external_body]
pub(crate) fn parse_rfc3339_unix(s: &str) -> (r: Option<i64>)
    ensures
        r == rfc3339_to_unix(s@),
{
    match chrono::DateTime::parse_from_rfc3339(s) {
        Ok(t) => Some(t.timestamp()),
        Err(_) => None,
    }
}

/// Relies on `chrono::DateTime::<Utc>::to_rfc3339` (with `from_timestamp`
/// converting the argument): a timestamp up to the year 9999 formats to an
/// RFC 3339 string that parses back to the same instant.
#[verifier::external_body]
pub(crate) fn format_rfc3339_unix(t: i64) -> (r: String)
    requires
        0 <= t < 253402300800,
    ensures
        rfc3339_to_unix(r@) == Some(t),
{
    match chrono::DateTime::from_timestamp(t, 0) {
        Some(d) => d.to_rfc3339(),
        None => String::new(),
    }
}

} // verus!
