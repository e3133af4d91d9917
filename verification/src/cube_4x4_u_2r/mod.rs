//! The 4x4x4 cube under the turn U of the upper layer and the turn 2R of
//! the inner layer on the right: ten edge pieces, ten centre pieces in four
//! colours, and the corners of the upper layer as a whole.

pub mod coord_cube;
pub mod cube;
pub mod search;
pub mod transposition_tables;
