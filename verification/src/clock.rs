//! The wall clock.
//!
//! Every operation of the coordinator takes the moment to record as an
//! explicit argument, so its contracts can pin the stored timestamps; this
//! module supplies that moment to callers that want the real clock.

use vstd::prelude::*;

verus! {

/// Relies on `chrono::Utc::now` for the current wall-clock time; nothing
/// is assumed of the value it reports.
#[verifier::external_body]
fn unix_timestamp_now() -> i64 {
    chrono::Utc::now().timestamp()
}

/// The current time in whole seconds since the Unix epoch, clamped below
/// at zero. The value comes from the machine's clock, so nothing is known
/// of it; callers hand it to the coordinator's operations, which are then
/// verified for every value of it.
pub fn now_unix_seconds() -> u64 {
    let t = unix_timestamp_now();
    if t < 0 {
        0
    } else {
        t as u64
    }
}

} // verus!
