//! The 3x3x3 cube under the turns U and r (the right face with the middle
//! layer next to it): six corners, nine edges, and the centres.

pub mod coord_cube;
pub mod corner_table;
pub mod cube;
pub mod ksolve;
pub mod search;
pub mod transposition_tables;
