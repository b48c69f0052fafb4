//! Curve-agnostic scalar arithmetic modulo a curve order.
//!
//! The crate centres on [`ScalarPrimitive`], a fixed-width integer reduced
//! modulo a per-curve order `N`: range-checked construction, modular
//! addition, subtraction and negation, constant-time comparison, fixed-width
//! big- and little-endian byte codecs, hexadecimal text codecs, and uniform
//! random sampling in `[0, N)`.
pub mod ct;
pub mod curve;
pub mod curves;
pub mod digits;
pub mod hex;
pub mod laws;
pub mod rng;
pub mod scalar;
pub mod uint;

pub use ct::choice_holds;
pub use curve::Curve;
pub use digits::be_val;
pub use digits::le_val;
pub use digits::pow256;
pub use scalar::ScalarPrimitive;
pub use uint::Uint;

use vstd::prelude::*;

verus! {

/// Why a scalar could not be decoded or constructed.
///
/// The variants are deliberately coarse: they name the kind of defect and
/// nothing about where in a possibly secret input it was found.
#[derive(Clone, Copy, Debug, PartialEq, Eq, Structural)]
pub enum Error {
    /// The decoded integer is not below the curve order.
    Range,
    /// A byte slice did not have exactly the curve's encoding width.
    Length,
    /// Textual input was not well-formed fixed-width hexadecimal.
    Format,
}

} // verus!
