//! The identities of lenders and borrowers.
use candid::Principal;
use vstd::prelude::*;

verus! {

/// Declares `candid::Principal`, which is carried through as an opaque value:
/// nothing is claimed of what it holds.
#[verifier::external_type_specification]
#[verifier::external_body]
pub struct ExPrincipal(candid::Principal);

/// Whether two principals are the same identity.
///
/// Calls the `==` of `candid::Principal`, which `candid` re-exports from
/// `ic_principal`. The impl is derived: it compares the length and the whole
/// byte buffer, the only two fields, so it holds of two principals exactly when
/// they are one value.
#[verifier::external_body]
pub(crate) fn same_principal(a: &Principal, b: &Principal) -> (same: bool)
    ensures
        same == (*a == *b),
{
    a == b
}

} // verus!
