//! The wall clock, as the backends read it for timestamp bookkeeping.

use vstd::prelude::*;

verus! {

/// The current moment as whole seconds since the Unix epoch.
///
/// Relies on `chrono::Utc::now` and `DateTime::timestamp`. The value depends
/// on the machine's clock, which is not even monotonic, so nothing is
/// promised about it; callers state what holds for every reading.
#[verifier::external_body]
pub(crate) fn now_timestamp() -> (r: i64) {
    chrono::Utc::now().timestamp()
}

} // verus!
