//! Rendering of UTC instants, through `chrono`.
use vstd::prelude::*;

verus! {

/// What `chrono::DateTime::<Utc>::from_timestamp(secs, nanos)` followed by
/// `to_rfc3339` gives; `None` where the instant is out of chrono's range.
pub uninterp spec fn rfc3339_text(secs: i64, nanos: u32) -> Option<Seq<char>>;

/// What `chrono::DateTime::<Utc>::from_timestamp(secs, 0)` followed by
/// `format("%Y-%m-%d %H:%M:%S UTC")` gives; `None` where the instant is out
/// of chrono's range.
pub uninterp spec fn report_time_text(secs: i64) -> Option<Seq<char>>;

/// Calls `chrono::DateTime::from_timestamp` and `DateTime::to_rfc3339`;
/// the result is the name [`rfc3339_text`] of the instant.
#[verifier::external_body]
pub(crate) fn utc_rfc3339(secs: i64, nanos: u32) -> (r: Option<String>)
    ensures
        match r {
            Some(t) => rfc3339_text(secs, nanos) == Some(t@),
            None => rfc3339_text(secs, nanos) is None,
        },
{
    match chrono::DateTime::from_timestamp(secs, nanos) {
        Some(d) => Some(d.to_rfc3339()),
        None => None,
    }
}

/// The RFC 3339 text of the unix instant `secs`, `nanos` in UTC, as a
/// report's `generated_at` writes it; `None` when chrono cannot represent
/// the instant.
pub fn rfc3339_at(secs: i64, nanos: u32) -> (r: Option<String>)
    ensures
        match r {
            Some(t) => rfc3339_text(secs, nanos) == Some(t@),
            None => rfc3339_text(secs, nanos) is None,
        },
{
    utc_rfc3339(secs, nanos)
}

/// Calls `chrono::DateTime::from_timestamp` and `DateTime::format` with
/// `%Y-%m-%d %H:%M:%S UTC`; the result is the name [`report_time_text`] of
/// the instant.
#[verifier::external_body]
pub(crate) fn utc_report_time(secs: i64) -> (r: Option<String>)
    ensures
        match r {
            Some(t) => report_time_text(secs) == Some(t@),
            None => report_time_text(secs) is None,
        },
{
    match chrono::DateTime::from_timestamp(secs, 0) {
        Some(d) => Some(d.format("%Y-%m-%d %H:%M:%S UTC").to_string()),
        None => None,
    }
}

/// What `chrono::DateTime::<Utc>::from_timestamp(secs, 0)` followed by
/// `format("%Y-%m-%dT%H:%M:%S")` gives; `None` out of chrono's range.
pub uninterp spec fn iso_seconds_text(secs: i64) -> Option<Seq<char>>;

/// What `chrono::DateTime::<Utc>::from_timestamp(secs, 0)` followed by
/// `format("%Y-%m-%d %H:%M UTC")` gives; `None` out of chrono's range.
pub uninterp spec fn minute_text(secs: i64) -> Option<Seq<char>>;

/// Calls `chrono::DateTime::from_timestamp` and `DateTime::format` with
/// `%Y-%m-%dT%H:%M:%S`; the result is the name [`iso_seconds_text`] of the
/// instant.
#[verifier::external_body]
pub(crate) fn utc_iso_seconds(secs: i64) -> (r: Option<String>)
    ensures
        match r {
            Some(t) => iso_seconds_text(secs) == Some(t@),
            None => iso_seconds_text(secs) is None,
        },
{
    match chrono::DateTime::from_timestamp(secs, 0) {
        Some(d) => Some(d.format("%Y-%m-%dT%H:%M:%S").to_string()),
        None => None,
    }
}

/// Calls `chrono::DateTime::from_timestamp` and `DateTime::format` with
/// `%Y-%m-%d %H:%M UTC`; the result is the name [`minute_text`] of the
/// instant.
#[verifier::external_body]
pub(crate) fn utc_minute(secs: i64) -> (r: Option<String>)
    ensures
        match r {
            Some(t) => minute_text(secs) == Some(t@),
            None => minute_text(secs) is None,
        },
{
    match chrono::DateTime::from_timestamp(secs, 0) {
        Some(d) => Some(d.format("%Y-%m-%d %H:%M UTC").to_string()),
        None => None,
    }
}

/// Calls `chrono::Utc::now` and returns the instant as unix seconds and
/// nanoseconds; nothing is claimed of the instant, which is the clock's.
#[verifier::external_body]
pub(crate) fn utc_now() -> (r: (i64, u32)) {
    let now = chrono::Utc::now();
    (now.timestamp(), now.timestamp_subsec_nanos())
}

} // verus!
