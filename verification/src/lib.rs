//! Conway's Game of Life on a fixed-size toroidal grid.
//!
//! A [`Universe`] owns a dense bit-per-cell grid (one bit per cell,
//! row-major) and advances it one generation at a time under the
//! classic B3/S23 rule, with both axes wrapping around (no edge is
//! special-cased). The grid is stored in a `fixedbitset::FixedBitSet`;
//! everything proved about it goes through the contracts in [`bits`].

pub mod bits;
pub mod laws;
pub mod rules;
pub mod universe;

pub use universe::Cell;
pub use universe::Universe;
