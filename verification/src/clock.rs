//! The wall clock, behind a trusted boundary.

use vstd::prelude::*;

verus! {

/// Relies on `std::time::SystemTime::now` and
/// `SystemTime::duration_since(UNIX_EPOCH)`: reads the wall clock as whole
/// nanoseconds since the Unix epoch, truncated to 64 bits, 0 if the clock
/// stands before the epoch. Nothing is promised of the value: callers state
/// what holds of every outcome.
#[verifier::external_body]
pub fn now_unix_nanos() -> u64 {
    match std::time::SystemTime::now().duration_since(std::time::UNIX_EPOCH) {
        Ok(d) => d.as_nanos() as u64,
        Err(_) => 0,
    }
}

} // verus!
