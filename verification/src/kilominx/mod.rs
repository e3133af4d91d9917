//! The kilominx under six face turns, corner positions only.

pub mod minx;
pub mod search;
