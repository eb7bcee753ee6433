//! Instants of time as plain numbers, and their text form.

use chrono::DateTime;
use vstd::prelude::*;

verus! {

/// The last second of the year 9999, in seconds since the Unix epoch.
pub const LAST_SECOND: i64 = 253_402_300_799;

/// Nanoseconds in one second.
pub const NANOS_PER_SECOND: u32 = 1_000_000_000;

/// The latest second for which [`rfc3339_string`] is known to give a text.
pub const LAST_RENDERED_SECOND: i64 = 1_000_000_000_000;

/// An instant between the Unix epoch and the end of the year 9999.
#[derive(Clone, Copy, Debug, PartialEq, Eq, Structural)]
pub struct Timestamp {
    /// Whole seconds since 1970-01-01T00:00:00Z.
    pub secs: i64,
    /// Nanoseconds since the last whole second.
    pub nanos: u32,
}

impl Timestamp {
    /// The instant lies in the range the library works with.
    pub open spec fn wf(&self) -> bool {
        &&& 0 <= self.secs <= LAST_SECOND
        &&& self.nanos < NANOS_PER_SECOND
    }

    /// The instant `secs` seconds and `nanos` nanoseconds after the epoch,
    /// if it lies in range.
    pub fn new(secs: i64, nanos: u32) -> (made: Option<Timestamp>)
        ensures
            made is Some <==> (0 <= secs <= LAST_SECOND && nanos < NANOS_PER_SECOND),
            made is Some ==> made->0.secs == secs && made->0.nanos == nanos && made->0.wf(),
    {
        if 0 <= secs && secs <= LAST_SECOND && nanos < NANOS_PER_SECOND {
            Some(Timestamp { secs, nanos })
        } else {
            None
        }
    }
}

/// The RFC 3339 text of the instant `secs` seconds and `nanos` nanoseconds
/// after the Unix epoch, in UTC, as `chrono` writes it.
pub uninterp spec fn rfc3339_utc(secs: int, nanos: int) -> Seq<char>;

/// The RFC 3339 text of an instant, or `None` where the instant cannot be
/// represented.
///
/// Trusted: `DateTime::from_timestamp` returns a UTC date and time for every
/// second count from the epoch to far beyond `LAST_RENDERED_SECOND` (its
/// range ends in the year 262142) with less than a second of nanoseconds,
/// and `None` out of range; `DateTime::to_rfc3339` writes that date and time
/// with the offset `+00:00`, and its text depends on the instant alone.
#[verifier::external_body]
pub(crate) fn rfc3339_of(secs: i64, nanos: u32) -> (text: Option<String>)
    ensures
        0 <= secs <= LAST_RENDERED_SECOND && nanos < NANOS_PER_SECOND ==> text is Some,
        text is Some ==> text->0@ == rfc3339_utc(secs as int, nanos as int),
{
    match DateTime::from_timestamp(secs, nanos) {
        Some(instant) => Some(instant.to_rfc3339()),
        None => None,
    }
}

/// The RFC 3339 text of an instant up to `LAST_RENDERED_SECOND`.
pub fn rfc3339_string(secs: i64, nanos: u32) -> (text: String)
    requires
        0 <= secs <= LAST_RENDERED_SECOND,
        nanos < NANOS_PER_SECOND,
    ensures
        text@ == rfc3339_utc(secs as int, nanos as int),
{
    match rfc3339_of(secs, nanos) {
        Some(text) => text,
        None => String::new(),
    }
}

} // verus!
