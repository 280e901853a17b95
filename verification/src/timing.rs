//! Wall-clock timing of a single run of work.
//!
//! The simulation itself is pure computation, but its callers benchmark it;
//! this module gives them a verified entry point around the monotonic clock
//! of the standard library. Clock readings depend on when they are taken,
//! so the trusted items below promise nothing about the values they return;
//! the verified part is only that the work is run, between two readings.

use vstd::prelude::*;

verus! {

/// Declares std::time::Instant, a reading of the monotonic clock, as an
/// opaque type: nothing is assumed of what a reading holds.
#[verifier::external_type_specification]
#[verifier::external_body]
pub struct ExInstant(std::time::Instant);

/// Relies on std::time::Instant::now: one reading of the monotonic clock.
/// The value depends on when the call runs, so nothing is promised of it.
#[verifier::external_body]
fn clock_reading() -> std::time::Instant {
    std::time::Instant::now()
}

/// Relies on std::time::Instant::duration_since: the time elapsed from
/// `earlier` to `later`, or zero when `earlier` is the later reading. The
/// readings are opaque here, so nothing is promised of the value.
#[verifier::external_body]
fn elapsed_between(later: std::time::Instant, earlier: std::time::Instant) -> std::time::Duration {
    later.duration_since(earlier)
}

/// Runs `f` once and reports how long the call took between two readings of
/// the monotonic clock. The postcondition of `f` holds on return.
pub fn time<F: FnOnce()>(f: F) -> (elapsed: std::time::Duration)
    requires
        call_requires(f, ()),
    ensures
        call_ensures(f, (), ()),
{
    let start = clock_reading();
    f();
    let stop = clock_reading();
    elapsed_between(stop, start)
}

} // verus!
