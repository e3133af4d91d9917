//! The 3x3x3 cube in two colours, with the corners of either colour told
//! apart by their twist: twelve edges in three groups, eight corners in four.

pub mod coord_cube;
pub mod cube;
pub mod search;
pub mod transposition_tables;
