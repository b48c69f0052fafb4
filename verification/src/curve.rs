//! The per-curve parameter set a scalar is reduced against.
use crate::digits::le_val;
use crate::digits::pow256;
use vstd::prelude::*;

verus! {

/// A curve's scalar-field parameters: the order `N` and the byte width `W`
/// of the canonical fixed-width encoding, with `W` minimal for `N`.
///
/// Implementations carry no data; they name a parameter set at the type
/// level, so each instantiation of the scalar type stays a concrete,
/// non-allocating fixed-size value.
pub trait Curve: Sized {
    /// The byte width `W` of the canonical fixed-width encoding.
    spec fn spec_width() -> nat;

    /// The order `N` of the scalar field.
    spec fn spec_order() -> nat;

    /// `N` is at least 2 and fills exactly `W` base-256 digits, for a `W`
    /// far below any machine's address-space limits.
    proof fn order_in_range()
        ensures
            2 <= Self::spec_order(),
            1 <= Self::spec_width() <= 0x1000_0000,
            pow256((Self::spec_width() - 1) as nat) <= Self::spec_order() < pow256(
                Self::spec_width(),
            ),
    ;

    /// The byte width `W`.
    fn width() -> (w: usize)
        ensures
            w as nat == Self::spec_width(),
    ;

    /// The order `N`, as exactly `W` little-endian bytes.
    fn order_le_limbs() -> (v: Vec<u8>)
        ensures
            v@.len() == Self::spec_width(),
            le_val(v@) == Self::spec_order(),
    ;
}

} // verus!
