//! The clock, fresh identifiers and timestamp parsing, all from outside
//! crates. Timestamps are milliseconds since the Unix epoch, in UTC.
use vstd::prelude::*;

use std::fmt::Write;

verus! {

/// Calls `chrono::Utc::now` and takes its `timestamp_millis`. The clock is
/// read: nothing is promised of the value.
#[verifier::external_body]
pub(crate) fn now_millis() -> (t: i64) {
    chrono::Utc::now().timestamp_millis()
}

/// Calls `uuid::Uuid::new_v4` and formats it with `to_string`. The value is
/// random: nothing is promised of it.
#[verifier::external_body]
pub(crate) fn new_id() -> (id: String) {
    uuid::Uuid::new_v4().to_string()
}

/// What `str::parse::<chrono::DateTime<chrono::Utc>>` gives for a text, as
/// milliseconds since the epoch: chrono's relaxed RFC 3339 reading.
pub uninterp spec fn utc_datetime_millis(text: Seq<char>) -> Option<i64>;

/// Calls `text.parse::<DateTime<Utc>>()` and takes `timestamp_millis` of the
/// result; `None` where chrono reports a parse error. The outcome is named:
/// it is a function of the text alone.
#[verifier::external_body]
pub(crate) fn parse_utc_datetime(text: &str) -> (r: Option<i64>)
    ensures
        r == utc_datetime_millis(text@),
{
    text.parse::<chrono::DateTime<chrono::Utc>>().ok().map(|d| d.timestamp_millis())
}

/// What `chrono::NaiveDateTime::parse_from_str(text, format)` gives, read as
/// UTC and taken in milliseconds since the epoch.
pub uninterp spec fn naive_datetime_millis(text: Seq<char>, format: Seq<char>) -> Option<i64>;

/// Calls `NaiveDateTime::parse_from_str` and converts with `and_utc` and
/// `timestamp_millis`; `None` where chrono reports a parse error. The outcome
/// is named: it is a function of the text and the format alone.
#[verifier::external_body]
pub(crate) fn parse_naive_datetime(text: &str, format: &str) -> (r: Option<i64>)
    ensures
        r == naive_datetime_millis(text@, format@),
{
    chrono::NaiveDateTime::parse_from_str(text, format).ok().map(|d| d.and_utc().timestamp_millis())
}

} // verus!

verus! {

/// What `chrono` prints for an instant given in milliseconds since the
/// epoch, formatted with a `strftime`-style format; nothing for an instant
/// outside chrono's range or a format chrono cannot print.
pub uninterp spec fn utc_timestamp_text(millis: i64, format: Seq<char>) -> Option<Seq<char>>;

/// Calls `DateTime::from_timestamp_millis` and writes the instant with
/// `DateTime::format`, catching the error chrono reports for a format it
/// cannot print. The text is named: it depends on the instant and the format
/// alone (the zone is UTC, not the machine's).
#[verifier::external_body]
pub(crate) fn format_utc_timestamp(millis: i64, format: &str) -> (r: Option<String>)
    ensures
        match r {
            Some(s) => utc_timestamp_text(millis, format@) == Some(s@),
            None => utc_timestamp_text(millis, format@) is None,
        },
{
    let t = chrono::DateTime::from_timestamp_millis(millis)?;
    let mut out = String::new();
    write!(out, "{}", t.format(format)).ok()?;
    Some(out)
}

} // verus!
