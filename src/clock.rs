//! The wall clock that blocks are stamped with.

use vstd::prelude::*;

verus! {

/// Relies on `std::time::SystemTime::now`: milliseconds since the Unix epoch,
/// or 0 when the clock reads earlier than that.
#[verifier::external_body]
pub(crate) fn now_millis() -> (r: u128) {
    match std::time::SystemTime::now().duration_since(std::time::UNIX_EPOCH) {
        Ok(d) => d.as_millis(),
        Err(_) => 0,
    }
}

} // verus!
