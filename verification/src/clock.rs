//! The wall clock and the date-time conversions done by `chrono`.

use vstd::prelude::*;
use chrono::Datelike;

verus! {

/// One reading of the UTC wall clock.
pub struct ClockReading {
    /// Whole seconds since 1970-01-01T00:00:00Z.
    pub secs: i64,
    /// Nanoseconds into that second.
    pub nanos: u32,
    /// The calendar year at that moment.
    pub year: i32,
}

/// Reads the clock through `chrono::Utc::now`. The contract states only what
/// holds of every reading: `Utc::now` builds its value from the time elapsed
/// since the Unix epoch, so the seconds are not negative and the nanoseconds
/// stay below one second. Which moment is read is not stated.
#[verifier::external_body]
pub(crate) fn utc_now() -> (r: ClockReading)
    ensures
        r.secs >= 0,
        r.nanos < 1_000_000_000,
{
    let now = chrono::Utc::now();
    ClockReading { secs: now.timestamp(), nanos: now.timestamp_subsec_nanos(), year: now.year() }
}

/// The instant an RFC 3339 text denotes, as (seconds since the Unix epoch,
/// nanoseconds into that second), or `None` when `chrono` rejects the text.
pub uninterp spec fn rfc3339_instant(text: Seq<char>) -> Option<(i64, u32)>;

/// Parses through `chrono::DateTime::parse_from_rfc3339` and reads the
/// instant back with `timestamp` and `timestamp_subsec_nanos`. The contract
/// only names the result as a function of the text.
#[verifier::external_body]
pub(crate) fn parse_rfc3339(text: &str) -> (r: Option<(i64, u32)>)
    ensures
        r == rfc3339_instant(text@),
{
    match chrono::DateTime::parse_from_rfc3339(text) {
        Ok(d) => Some((d.timestamp(), d.timestamp_subsec_nanos())),
        Err(_) => None,
    }
}

/// The `%Y-%m-%dT%H:%M:%SZ` text of the UTC date-time `secs` seconds after
/// the Unix epoch, or `None` when `chrono` cannot represent it.
pub uninterp spec fn utc_timestamp_text(secs: i64) -> Option<Seq<char>>;

/// Formats through `chrono::DateTime::from_timestamp(secs, 0)` and
/// `format("%Y-%m-%dT%H:%M:%SZ")`. The contract only names the result as a
/// function of `secs`.
#[verifier::external_body]
pub(crate) fn format_utc_timestamp(secs: i64) -> (r: Option<String>)
    ensures
        match r {
            Some(s) => utc_timestamp_text(secs) == Some(s@),
            None => utc_timestamp_text(secs) is None,
        },
{
    match chrono::DateTime::from_timestamp(secs, 0) {
        Some(dt) => Some(dt.format("%Y-%m-%dT%H:%M:%SZ").to_string()),
        None => None,
    }
}

} // verus!
