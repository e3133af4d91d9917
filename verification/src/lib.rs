//! Dense integer coordinates for twisty-puzzle states, and the move tables
//! built over them.

pub mod counting;
pub mod cube_3x3_2_color;
pub mod cube_3x3_2_color_ufb;
pub mod cube_3x3_2_color_ufr;
pub mod cube_3x3_ep;
pub mod cube_3x3_u_f2_r;
pub mod cube_3x3_u_r;
pub mod cube_4x4_u_2r;
pub mod cycle;
pub mod factorial;
pub mod kilominx;
pub mod megaminx_u_r;
pub mod multiset;
pub mod notation;
pub mod orientation;
pub mod parity;
pub mod permutation;
pub mod radix;
pub mod settings;
pub mod table;
