//! Wall-clock access. The engine itself takes the current time as an
//! argument; these readings exist for callers that sit at the process
//! boundary and for identifier generation.

use vstd::prelude::*;

verus! {

/// Seconds since the Unix epoch, or zero when the clock reads earlier than
/// the epoch. Relies on `std::time::SystemTime::now`; the result depends on
/// the wall clock, so nothing is promised of it.
#[verifier::external_body]
pub fn now_unix() -> i64 {
    match std::time::SystemTime::now().duration_since(std::time::UNIX_EPOCH) {
        Ok(d) => d.as_secs() as i64,
        Err(_) => 0,
    }
}

} // verus!
