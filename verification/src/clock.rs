//! The clock that measures a check.
//!
//! A check is timed on a monotonic clock, from its start to its resolution. A
//! reading is not a function of anything the library holds, so nothing is
//! proved of it: the functions that read the clock hand the reading to
//! functions that are verified for every reading. The wall-clock time at
//! which a check starts is the caller's to read.

use vstd::prelude::*;

verus! {

/// Makes `std::time::Instant` known as a type that is carried and never
/// looked into.
#[verifier::external_type_specification]
#[verifier::external_body]
pub struct ExInstant(std::time::Instant);

/// A monotonic clock, read in nanoseconds since it was started.
#[derive(Clone, Copy, Debug)]
pub struct Clock {
    origin: std::time::Instant,
}

/// Calls `std::time::Instant::now`. Nothing is claimed of the instant that
/// comes back.
#[verifier::external_body]
fn instant_now() -> std::time::Instant {
    std::time::Instant::now()
}

/// Calls `std::time::Instant::elapsed` on `origin` and gives the duration in
/// whole nanoseconds. Nothing is claimed of the number that comes back.
#[verifier::external_body]
fn nanos_since(origin: &std::time::Instant) -> u128 {
    origin.elapsed().as_nanos()
}

impl Clock {
    /// Starts a clock; its readings count from now.
    pub fn start() -> Clock {
        Clock { origin: instant_now() }
    }

    /// The nanoseconds since the clock was started.
    pub fn reading_nanos(&self) -> u128 {
        nanos_since(&self.origin)
    }
}

} // verus!
