//! Wall-clock timestamps for `created_at` and `updated_at`, as nanoseconds
//! since the Unix epoch.

use vstd::prelude::*;

verus! {

/// Relies on `chrono::Utc::now` for the current wall-clock instant, reduced to
/// nanoseconds since the Unix epoch (an instant past the representable range
/// saturates). Nothing is promised of the value: the clock may move
/// arbitrarily between calls.
#[verifier::external_body]
pub(crate) fn now_nanos() -> i64 {
    chrono::Utc::now().timestamp_nanos_opt().unwrap_or(i64::MAX)
}

} // verus!
