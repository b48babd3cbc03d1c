//! Fresh identifiers for newly created records.

use vstd::prelude::*;

verus! {

/// A fresh, sortable, URL-safe identifier token.
///
/// Relies on `ulid::Ulid::generate` and `Ulid::to_string`: the Crockford
/// base32 rendering of a ulid is always exactly 26 characters. The value
/// mixes the clock and randomness, so nothing else is promised; in
/// particular, freshness against any given collection is checked by the
/// caller, not assumed here.
#[verifier::external_body]
pub(crate) fn new_uid() -> (r: String)
    ensures
        r@.len() == 26,
{
    ulid::Ulid::generate().to_string()
}

} // verus!
