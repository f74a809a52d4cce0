//! The wall clock.

use vstd::prelude::*;

verus! {

/// `Utc::now` and `DateTime::timestamp_millis` of `chrono`: the current time
/// in milliseconds since the Unix epoch. Nothing is promised of the number:
/// it is whatever the machine's clock shows. `chrono` panics where that
/// clock is set to a time before the epoch.
#[verifier::external_body]
pub(crate) fn now_millis() -> (r: i64) {
    chrono::Utc::now().timestamp_millis()
}

} // verus!
