//! The wall clock, read in milliseconds.
use vstd::prelude::*;

verus! {

/// Relies on `std::time::SystemTime::now`: the milliseconds elapsed since the
/// Unix epoch. Nothing is known of the value, which depends on the machine.
#[verifier::external_body]
pub(crate) fn now_millis() -> (r: u64) {
    std::time::SystemTime::now().duration_since(std::time::UNIX_EPOCH).map(|d| d.as_millis() as u64).unwrap_or(0)
}

/// Milliseconds from `since` to `now`, or zero when the clock went back.
pub fn millis_between(since: u64, now: u64) -> (r: u64)
    ensures
        r == if now >= since { now - since } else { 0 },
{
    if now >= since {
        now - since
    } else {
        0
    }
}

} // verus!
