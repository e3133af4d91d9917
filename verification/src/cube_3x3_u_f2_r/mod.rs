//! The 3x3x3 cube under the turns U, R and F2: nine edges, seven corners.

pub mod coord_cube;
pub mod cube;
pub mod search;
pub mod transposition_tables;
