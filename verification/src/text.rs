//! A single trusted comparison on string slices, shared by the modules that
//! track symbols as `&str` values.

use vstd::prelude::*;

verus! {

/// Relies on `str`'s `PartialEq` implementation in std: two string slices
/// compare equal exactly when they consist of the same sequence of characters.
#[verifier::external_body]
pub(crate) fn str_eq(a: &str, b: &str) -> (r: bool)
    ensures
        r == (a@ == b@),
{
    a == b
}

} // verus!
