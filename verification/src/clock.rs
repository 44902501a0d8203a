//! The time of the machine.

use vstd::prelude::*;

verus! {

/// The current time in microseconds since the epoch, as `chrono::Utc::now`
/// and `DateTime::timestamp_micros` give it. Nothing is claimed of the value:
/// two calls may give any two times.
#[verifier::external_body]
pub(crate) fn current_time() -> i64 {
    chrono::Utc::now().timestamp_micros()
}

} // verus!
