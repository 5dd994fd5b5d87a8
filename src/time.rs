//! Observation times, as an instant in UTC.

use vstd::prelude::*;

verus! {

/// An instant: whole seconds since 1970-01-01T00:00:00Z, and the nanoseconds
/// past that second.
#[derive(Clone, Copy, Debug, PartialEq, Eq)]
pub struct Timestamp {
    pub seconds: i64,
    pub nanos: u32,
}

/// The instant a date-time text names, as seconds and nanoseconds, when the
/// text reads as one.
pub uninterp spec fn utc_instant_of(s: Seq<char>) -> Option<(i64, u32)>;

/// Relies on chrono's `FromStr for DateTime<Utc>` (a relaxed RFC 3339 form
/// with an offset, turned to UTC), and on `DateTime::timestamp` and
/// `DateTime::timestamp_subsec_nanos` to read the instant out: the result
/// depends on the text alone.
#[verifier::external_body]
fn parse_utc(s: &str) -> (r: Option<(i64, u32)>)
    ensures
        r == utc_instant_of(s@),
{
    match s.parse::<chrono::DateTime<chrono::Utc>>() {
        Ok(t) => Some((t.timestamp(), t.timestamp_subsec_nanos())),
        Err(_) => None,
    }
}

pub open spec fn instant_to_timestamp(i: Option<(i64, u32)>) -> Option<Timestamp> {
    match i {
        Some((seconds, nanos)) => Some(Timestamp { seconds, nanos }),
        None => None,
    }
}

/// A time cell: absent when the cell is, or does not read as a date-time.
pub open spec fn timestamp_cell(c: Option<Seq<char>>) -> Option<Timestamp> {
    match c {
        Some(s) => instant_to_timestamp(utc_instant_of(s)),
        None => None,
    }
}

/// Reads a time cell.
pub fn parse_timestamp_cell(c: &Option<String>) -> (r: Option<Timestamp>)
    ensures
        r == timestamp_cell(c.deep_view()),
{
    match c {
        Some(s) => match parse_utc(s.as_str()) {
            Some((seconds, nanos)) => Some(Timestamp { seconds, nanos }),
            None => None,
        },
        None => None,
    }
}

} // verus!
