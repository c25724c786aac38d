//! Comparison of texts.

use vstd::prelude::*;

verus! {

/// `==` on `str`: two texts are equal exactly when they hold the same
/// characters.
#[verifier::external_body]
pub(crate) fn same_text(a: &str, b: &str) -> (same: bool)
    ensures
        same == (a@ == b@),
{
    a == b
}

} // verus!
