//! Clock reads. Nothing can be promised of the instant a clock reports, so
//! these wrappers carry no postconditions; callers state what holds whatever
//! value comes back, and the fully specified entry points take the instant as
//! an argument instead.

use vstd::prelude::*;

verus! {

/// Relies on std::time::SystemTime::now: seconds since the Unix epoch at
/// whatever instant the system clock reports (zero if the clock is before the
/// epoch).
#[verifier::external_body]
pub fn now_unix_seconds() -> u64 {
    match std::time::SystemTime::now().duration_since(std::time::UNIX_EPOCH) {
        Ok(d) => d.as_secs(),
        Err(_) => 0,
    }
}

/// Relies on chrono::Utc::now and chrono::DateTime::to_rfc3339: the current
/// instant rendered as an RFC 3339 timestamp; depends on the clock.
#[verifier::external_body]
pub fn now_rfc3339() -> String {
    chrono::Utc::now().to_rfc3339()
}

} // verus!
