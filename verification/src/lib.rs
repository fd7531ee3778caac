//! Conway's Game of Life on a toroidal grid.
//!
//! A [`Universe`] keeps its cells in a bit-packed `fixedbitset::FixedBitSet`.
//! What each of its operations does is stated against [`grid::Grid`], the
//! mathematical model of a universe. [`laws`] holds what follows for the
//! simulation as a whole, and [`patterns`] what becomes of a block and of a
//! glider.

pub mod bitset;
pub mod coords;
pub mod grid;
pub mod laws;
pub mod patterns;
pub mod ring;
pub mod rules;
pub mod universe;

pub use coords::CoordinateError;
pub use rules::toggle;
pub use universe::Universe;
