//! One table per face turn over the edge coordinate.

use vstd::prelude::*;
use crate::cube_3x3_ep::cube::{
    b_coord, b_moved, d_coord, d_moved, f_coord, f_moved, l_coord, l_moved, r_coord, r_moved,
    u_coord, u_moved, Cube, EP_SIZE,
};
use crate::factorial::lemma_fact_values;
use crate::permutation::{is_permutation, lehmer_rank, lemma_unrank_of_rank};
use crate::table::{build_table, tabulates};

verus! {

#[derive(Debug, PartialEq)]
pub struct TranspositionTables {
    pub u: Vec<u32>,
    pub l: Vec<u32>,
    pub f: Vec<u32>,
    pub r: Vec<u32>,
    pub b: Vec<u32>,
    pub d: Vec<u32>,
}

/// The edge coordinate after a quarter turn of the upper face, worked out on
/// the cube itself.
pub fn u_entry(coord: u32) -> (next: u32)
    requires
        coord < EP_SIZE,
    ensures
        next == u_coord(coord as nat),
        next < EP_SIZE,
{
    proof {
        reveal(u_coord);
    }
    let mut cube = Cube::new();
    cube.set_ep_coord(coord);
    cube.u();
    cube.ep_coord()
}

/// The edge coordinate after a quarter turn of the left face, worked out on
/// the cube itself.
pub fn l_entry(coord: u32) -> (next: u32)
    requires
        coord < EP_SIZE,
    ensures
        next == l_coord(coord as nat),
        next < EP_SIZE,
{
    proof {
        reveal(l_coord);
    }
    let mut cube = Cube::new();
    cube.set_ep_coord(coord);
    cube.l();
    cube.ep_coord()
}

/// The edge coordinate after a quarter turn of the front face, worked out on
/// the cube itself.
pub fn f_entry(coord: u32) -> (next: u32)
    requires
        coord < EP_SIZE,
    ensures
        next == f_coord(coord as nat),
        next < EP_SIZE,
{
    proof {
        reveal(f_coord);
    }
    let mut cube = Cube::new();
    cube.set_ep_coord(coord);
    cube.f();
    cube.ep_coord()
}

/// The edge coordinate after a quarter turn of the right face, worked out on
/// the cube itself.
pub fn r_entry(coord: u32) -> (next: u32)
    requires
        coord < EP_SIZE,
    ensures
        next == r_coord(coord as nat),
        next < EP_SIZE,
{
    proof {
        reveal(r_coord);
    }
    let mut cube = Cube::new();
    cube.set_ep_coord(coord);
    cube.r();
    cube.ep_coord()
}

/// The edge coordinate after a quarter turn of the back face, worked out on
/// the cube itself.
pub fn b_entry(coord: u32) -> (next: u32)
    requires
        coord < EP_SIZE,
    ensures
        next == b_coord(coord as nat),
        next < EP_SIZE,
{
    proof {
        reveal(b_coord);
    }
    let mut cube = Cube::new();
    cube.set_ep_coord(coord);
    cube.b();
    cube.ep_coord()
}

/// The edge coordinate after a quarter turn of the lower face, worked out on
/// the cube itself.
pub fn d_entry(coord: u32) -> (next: u32)
    requires
        coord < EP_SIZE,
    ensures
        next == d_coord(coord as nat),
        next < EP_SIZE,
{
    proof {
        reveal(d_coord);
    }
    let mut cube = Cube::new();
    cube.set_ep_coord(coord);
    cube.d();
    cube.ep_coord()
}

impl TranspositionTables {
    /// Each table holds, for every edge coordinate, the coordinate after
    /// its face turn.
    pub open spec fn wf(&self) -> bool {
        &&& tabulates(self.u@, EP_SIZE as nat, |c: nat| u_coord(c))
        &&& tabulates(self.l@, EP_SIZE as nat, |c: nat| l_coord(c))
        &&& tabulates(self.f@, EP_SIZE as nat, |c: nat| f_coord(c))
        &&& tabulates(self.r@, EP_SIZE as nat, |c: nat| r_coord(c))
        &&& tabulates(self.b@, EP_SIZE as nat, |c: nat| b_coord(c))
        &&& tabulates(self.d@, EP_SIZE as nat, |c: nat| d_coord(c))
    }

    /// Builds the six tables.
    pub fn new() -> (tables: Self)
        ensures
            tables.wf(),
    {
        let u = build_table(EP_SIZE as u32, u_entry);
        let l = build_table(EP_SIZE as u32, l_entry);
        let f = build_table(EP_SIZE as u32, f_entry);
        let r = build_table(EP_SIZE as u32, r_entry);
        let b = build_table(EP_SIZE as u32, b_entry);
        let d = build_table(EP_SIZE as u32, d_entry);
        Self { u, l, f, r, b, d }
    }
}

/// The tables follow the cube: looking a face turn up at the coordinate of
/// a cube gives the coordinate of the cube after the turn.
pub proof fn lemma_tables_follow(ep: Seq<u8>)
    requires
        ep.len() == 12,
        is_permutation(ep),
    ensures
        lehmer_rank(ep) < EP_SIZE,
        u_coord(lehmer_rank(ep)) == lehmer_rank(u_moved(ep)),
        l_coord(lehmer_rank(ep)) == lehmer_rank(l_moved(ep)),
        f_coord(lehmer_rank(ep)) == lehmer_rank(f_moved(ep)),
        r_coord(lehmer_rank(ep)) == lehmer_rank(r_moved(ep)),
        b_coord(lehmer_rank(ep)) == lehmer_rank(b_moved(ep)),
        d_coord(lehmer_rank(ep)) == lehmer_rank(d_moved(ep)),
{
    reveal(u_coord);
    reveal(l_coord);
    reveal(f_coord);
    reveal(r_coord);
    reveal(b_coord);
    reveal(d_coord);
    lemma_fact_values();
    lemma_unrank_of_rank(ep);
}

} // verus!
