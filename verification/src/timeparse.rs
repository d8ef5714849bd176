//! Trusted boundary to `chrono`'s parsers. Time is carried through the
//! verified core as plain numbers: an event time as seconds since the Unix
//! epoch, a calendar date as a day count from the common era. Both parses
//! are functions of the input text alone, so their results are named rather
//! than spelled out.

use vstd::prelude::*;

verus! {

/// The seconds-since-epoch reading of an RFC 3339 date-time string, or
/// `None` where the text is not one.
pub uninterp spec fn ts_num_of(s: Seq<char>) -> Option<i64>;

/// The day-count reading of a `YYYY-MM-DD` date string, or `None` where the
/// text is not one.
pub uninterp spec fn day_num_of(s: Seq<char>) -> Option<i64>;

/// Relies on `chrono::DateTime::parse_from_rfc3339` and
/// `DateTime::timestamp`: an RFC 3339 date-time read as seconds since the
/// Unix epoch, a function of the text alone.
#[verifier::external_body]
pub(crate) fn parse_rfc3339_secs(s: &str) -> (r: Option<i64>)
    ensures
        r == ts_num_of(s@),
{
    chrono::DateTime::parse_from_rfc3339(s).ok().map(|t| t.timestamp())
}

/// Relies on `chrono::NaiveDate::parse_from_str` and
/// `Datelike::num_days_from_ce`: a `YYYY-MM-DD` date read as a day count
/// from the common era, a function of the text alone.
#[verifier::external_body]
pub(crate) fn parse_date_num(s: &str) -> (r: Option<i64>)
    ensures
        r == day_num_of(s@),
{
    chrono::NaiveDate::parse_from_str(s, "%Y-%m-%d").ok().map(
        |d| chrono::Datelike::num_days_from_ce(&d) as i64,
    )
}

} // verus!
