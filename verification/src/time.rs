//! Points in time, as seconds and nanoseconds since the Unix epoch (UTC).
use vstd::prelude::*;

verus! {

/// A point in time: whole seconds since the Unix epoch and the nanoseconds
/// past that second.
#[derive(Debug, Clone, Copy, PartialEq, Eq, Structural)]
pub struct Timestamp {
    pub secs: i64,
    pub nanos: u32,
}

/// The nanoseconds since the epoch.
pub open spec fn total_nanos(t: Timestamp) -> int {
    t.secs * 1_000_000_000 + t.nanos
}

/// `chrono::Utc::now()`, as seconds and nanoseconds since the epoch. The
/// clock's reading is not stated.
#[verifier::external_body]
pub fn utc_now() -> (t: Timestamp) {
    let now = chrono::Utc::now();
    Timestamp { secs: now.timestamp(), nanos: now.timestamp_subsec_nanos() }
}

/// The instant `chrono::DateTime::parse_from_rfc3339` reads from `text`,
/// in UTC, or `None` where it refuses the text.
pub uninterp spec fn spec_parse_rfc3339(text: Seq<char>) -> Option<Timestamp>;

/// `chrono::DateTime::parse_from_rfc3339`, then `to_utc`. The contract
/// names the instant; it says nothing of the format.
#[verifier::external_body]
pub fn parse_rfc3339(text: &str) -> (r: Option<Timestamp>)
    ensures
        r == spec_parse_rfc3339(text@),
{
    match chrono::DateTime::parse_from_rfc3339(text) {
        Ok(d) => Some(Timestamp { secs: d.timestamp(), nanos: d.timestamp_subsec_nanos() }),
        Err(_) => None,
    }
}

/// Whether at least `hours` whole hours have passed from `from` to `to`.
pub open spec fn hours_passed(from: Timestamp, to: Timestamp, hours: int) -> bool {
    total_nanos(to) - total_nanos(from) >= hours * 3_600_000_000_000
}

/// Whether at least `hours` whole hours have passed from `from` to `to`.
pub fn at_least_hours_between(from: Timestamp, to: Timestamp, hours: u32) -> (b: bool)
    ensures
        b == hours_passed(from, to, hours as int),
{
    let a: i128 = from.secs as i128 * 1_000_000_000 + from.nanos as i128;
    let b: i128 = to.secs as i128 * 1_000_000_000 + to.nanos as i128;
    b - a >= hours as i128 * 3_600_000_000_000
}

} // verus!
