//! The 3x3x3 cube in two colours, one colour on the faces U, F and R:
//! twelve edges in three groups, eight corners in four.

pub mod coord_cube;
pub mod cube;
pub mod search;
pub mod transposition_tables;
