//! The edges of the 3x3x3 cube under the six face turns, positions only.

pub mod coord_cube;
pub mod cube;
pub mod search;
pub mod transposition_tables;
