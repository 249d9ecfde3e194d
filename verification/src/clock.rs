//! The wall clock, read as whole seconds since the Unix epoch.

use vstd::prelude::*;

verus! {

/// Relies on `std::time::SystemTime::now` and
/// `SystemTime::duration_since(UNIX_EPOCH)`: the current time in whole
/// seconds since the Unix epoch, or 0 where the clock stands before it.
/// Nothing can be promised of a clock reading.
#[verifier::external_body]
pub fn now_epoch_secs() -> u64 {
    match std::time::SystemTime::now().duration_since(std::time::UNIX_EPOCH) {
        Ok(d) => d.as_secs(),
        Err(_) => 0,
    }
}

} // verus!
