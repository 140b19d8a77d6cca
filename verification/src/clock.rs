//! The clock: the only way in which time comes into the library.

use vstd::prelude::*;

verus! {

/// A moment of the calendar in UTC, as far as the library reads it.
#[derive(Debug, Clone, PartialEq, Eq)]
pub struct Moment {
    /// The year of the calendar.
    pub year: i32,
    /// The moment as a text, in the form of RFC 3339.
    pub timestamp: String,
}

/// `std::time::Instant`, a reading of a clock that does not go back. The
/// library hands such a reading on and looks at nothing in it.
#[verifier::external_type_specification]
#[verifier::external_body]
pub struct ExInstant(std::time::Instant);

/// `chrono::Utc::now`, with `year` and `to_rfc3339` of what it returns: the
/// current moment. Nothing is known of it. The call fails where the
/// system's clock stands before 1970.
#[verifier::external_body]
pub(crate) fn now() -> (moment: Moment) {
    let now = chrono::Utc::now();
    Moment { year: chrono::Datelike::year(&now), timestamp: now.to_rfc3339() }
}

/// `std::time::Instant::now`: a reading of the clock. Nothing is known of
/// it.
#[verifier::external_body]
pub(crate) fn start_clock() -> (start: std::time::Instant) {
    std::time::Instant::now()
}

/// `std::time::Instant::elapsed` in whole milliseconds, cut to 64 bits: the
/// time since the reading was taken. Nothing is known of it.
#[verifier::external_body]
pub(crate) fn elapsed_ms(start: &std::time::Instant) -> (ms: u64) {
    start.elapsed().as_millis() as u64
}

} // verus!
