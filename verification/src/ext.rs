//! The engine's trusted boundary: the wall clock. Everything here is
//! believed, not proved; each item names the outside function it relies on.

use vstd::prelude::*;

verus! {

/// Relies on std::time::SystemTime::now and duration_since(UNIX_EPOCH) for
/// the current Unix time in seconds. Nothing can be promised of a clock
/// reading; a clock before the epoch reads as zero.
#[verifier::external_body]
pub fn unix_now_secs() -> u64 {
    match std::time::SystemTime::now().duration_since(std::time::UNIX_EPOCH) {
        Ok(d) => d.as_secs(),
        Err(_) => 0,
    }
}

} // verus!
