//! The concurrent map of the `dashmap` crate, as the library's stores use it,
//! and the monotonic clock.
//!
//! Each store names what its map holds (a `Map` of plain values) and calls the
//! map only through the wrappers next to that name, in its own module.

use vstd::prelude::*;

verus! {

#[verifier::external_type_specification]
#[verifier::external_body]
#[verifier::reject_recursive_types(K)]
#[verifier::reject_recursive_types(V)]
#[verifier::reject_recursive_types(S)]
pub struct ExDashMap<K, V, S>(dashmap::DashMap<K, V, S>);

#[verifier::external_type_specification]
#[verifier::external_body]
pub struct ExInstant(std::time::Instant);

/// `std::time::Instant::now()`: a reading of the monotonic clock.
#[verifier::external_body]
pub fn instant_now() -> std::time::Instant {
    std::time::Instant::now()
}

/// `Instant::elapsed` in nanoseconds: the time since `origin` was read. A
/// `Duration` never exceeds `u64::MAX` seconds and 999 999 999 ns; nothing
/// else is claimed of the reading.
#[verifier::external_body]
pub fn elapsed_nanos(origin: &std::time::Instant) -> (n: u128)
    ensures
        n <= crate::time::MAX_NANOS,
{
    origin.elapsed().as_nanos()
}

} // verus!
