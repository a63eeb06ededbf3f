//! Wall-clock access.

use vstd::prelude::*;

verus! {

/// Relies on chrono's `Utc::now` / `DateTime::timestamp_millis`: the
/// current UTC time in milliseconds since the Unix epoch. The result
/// depends on the clock, so nothing is assumed about its value. Note
/// that `Utc::now` itself panics if the system clock reads before the
/// Unix epoch or beyond chrono's representable range.
#[verifier::external_body]
pub fn now_timestamp_millis() -> i64 {
    chrono::Utc::now().timestamp_millis()
}

} // verus!
