//! The megaminx under the turns U and R: eight corners, nine edges.

pub mod coord_minx;
pub mod minx;
pub mod search;
pub mod transposition_tables;
