//! The constant-time boolean tag of the `subtle` crate.
//!
//! Predicates and comparisons on scalars answer with a [`subtle::Choice`], a
//! wrapper around a byte that is 0 or 1, designed so that turning it back
//! into a branchable `bool` is an explicit, visible step. Verus sees the tag
//! as an opaque value whose truth is named by [`choice_holds`].
use vstd::prelude::*;

verus! {

/// Declares `subtle::Choice` — a byte that is 0 or 1, compared and combined
/// without data-dependent branches — as an opaque type for signatures.
#[verifier::external_type_specification]
#[verifier::external_body]
pub struct ExChoice(subtle::Choice);

/// The truth value a `subtle::Choice` carries.
pub uninterp spec fn choice_holds(c: subtle::Choice) -> bool;

/// Relies on `subtle::Choice::from`: a byte of 1 makes the true tag, a byte
/// of 0 the false one.
#[verifier::external_body]
pub fn choice_from_bool(b: bool) -> (c: subtle::Choice)
    ensures
        choice_holds(c) == b,
{
    subtle::Choice::from(if b {
        1u8
    } else {
        0u8
    })
}

/// Relies on `bool::from(subtle::Choice)`: reads back the truth value the
/// tag carries.
#[verifier::external_body]
pub fn choice_to_bool(c: subtle::Choice) -> (b: bool)
    ensures
        b == choice_holds(c),
{
    bool::from(c)
}

} // verus!
