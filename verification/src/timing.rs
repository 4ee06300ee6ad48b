//! Wall-clock timing around a unit of work.

use vstd::prelude::*;

verus! {

#[verifier::external_type_specification]
#[verifier::external_body]
pub struct ExInstant(std::time::Instant);

/// Relies on std::time::Instant::now: a reading of the monotonic clock,
/// about which nothing is assumed.
#[verifier::external_body]
fn instant_now() -> std::time::Instant {
    std::time::Instant::now()
}

/// Relies on std::time::Instant::elapsed: the time since the reading,
/// about which nothing is assumed.
#[verifier::external_body]
fn elapsed_since(start: &std::time::Instant) -> std::time::Duration {
    start.elapsed()
}

/// Run a unit of work and measure the wall-clock time it takes.
pub fn time_it<F: FnOnce()>(f: F) -> (d: std::time::Duration)
    requires
        call_requires(f, ()),
    ensures
        call_ensures(f, (), ()),
{
    let start = instant_now();
    f();
    elapsed_since(&start)
}

} // verus!
