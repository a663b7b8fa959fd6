//! The process clock, behind the one trusted item that reads it.

use vstd::prelude::*;

verus! {

/// Current unix time in whole seconds, or zero if the system clock reads
/// before the epoch.
///
/// Relies on `std::time::SystemTime::now`; the reading depends on the
/// machine's clock, so nothing is promised of the returned value.
#[verifier::external_body]
pub fn now_unix_secs() -> u64 {
    std::time::SystemTime::now().duration_since(std::time::UNIX_EPOCH).map_or(
        0,
        |d| d.as_secs(),
    )
}

} // verus!
