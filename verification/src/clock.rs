//! Wall-clock reading: the timestamp stamped on every datapoint update.

use vstd::prelude::*;

verus! {

/// Relies on chrono::Local::now and chrono::DateTime::timestamp_millis for
/// the current wall-clock time in milliseconds since the Unix epoch. Nothing
/// is promised of the value: the clock may move arbitrarily between two
/// calls, so whatever a caller guarantees must hold for every reading this
/// may hand back.
#[verifier::external_body]
pub(crate) fn now_millis() -> i64 {
    chrono::Local::now().timestamp_millis()
}

} // verus!
