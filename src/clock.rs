//! The wall clock.
use vstd::prelude::*;

verus! {

/// Relies on std's `SystemTime::now` and `SystemTime::duration_since`: the
/// milliseconds elapsed since the Unix epoch, or `None` when the system
/// clock reads earlier than the epoch. Neither call panics; nothing is
/// assumed of the value.
#[verifier::external_body]
fn wall_clock_millis() -> Option<u128> {
    match std::time::SystemTime::now().duration_since(std::time::UNIX_EPOCH) {
        Ok(d) => Some(d.as_millis()),
        Err(_) => None,
    }
}

/// The current time in milliseconds since the Unix epoch: zero when the
/// clock reads before the epoch, `u64::MAX` past the largest instant.
pub fn now_ms() -> u64 {
    match wall_clock_millis() {
        None => 0,
        Some(t) => {
            if t > u64::MAX as u128 {
                u64::MAX
            } else {
                t as u64
            }
        },
    }
}

} // verus!
