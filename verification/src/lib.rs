//! Conway's Game of Life on a toroidal grid, stored one bit per cell.
//!
//! [`Universe`] is the executable grid; [`Grid`] is the mathematical model
//! that every contract is stated over.

pub mod arith;
pub mod bitset;
pub mod cell;
pub mod grid;
pub mod laws;
pub mod text;
pub mod universe;

pub use bitset::bits_of;
pub use cell::Cell;
pub use grid::Grid;
pub use universe::Universe;
