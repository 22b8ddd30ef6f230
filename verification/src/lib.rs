//! Deterministic lattice-gradient ("Perlin") noise over a two-dimensional
//! field of fixed-point scalar samples, with colormaps that project a field
//! to an RGBA pixel buffer.
//!
//! Scalars are `i64` values in units of [`math::ONE`] (so `ONE` stands for
//! the real number one). All arithmetic is exact integer arithmetic, which
//! makes the whole pipeline reproducible bit for bit.

pub mod cmap;
pub mod gradient;
pub mod hashing;
pub mod image;
pub mod math;
pub mod noise;

use vstd::prelude::*;

verus! {

/// A configuration the pipeline rejects before any computation begins.
#[derive(Clone, Copy, Debug, PartialEq, Eq, Structural)]
pub enum ConfigError {
    /// The lattice scale was zero; a lattice needs a positive vertex spacing.
    ZeroScale,
    /// An input field and an output buffer differ in their dimensions.
    DimensionMismatch,
    /// A gradient colormap was given no control points at all.
    EmptyGradient,
    /// The control points of a gradient colormap were not strictly
    /// increasing in position.
    UnorderedGradient,
}

} // verus!
