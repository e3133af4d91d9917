//! The cube as its edge coordinate alone, moved by table lookups.

use vstd::prelude::*;
use crate::cube_3x3_ep::cube::{b_coord, d_coord, f_coord, l_coord, r_coord, u_coord, Cube, EP_SIZE};
use crate::cube_3x3_ep::transposition_tables::TranspositionTables;
use crate::permutation::{identity_perm, lehmer_rank};
use crate::table::lookup;

verus! {

#[derive(Clone)]
pub struct CoordCube<'a> {
    pub ep: u32,
    pub transposition_tables: &'a TranspositionTables,
}

impl<'a> CoordCube<'a> {
    /// The coordinate is in range and the tables are what they claim to be.
    pub open spec fn wf(&self) -> bool {
        &&& self.ep < EP_SIZE
        &&& self.transposition_tables.wf()
    }

    /// The solved cube over the given tables.
    pub fn new(transposition_tables: &'a TranspositionTables) -> (cube: Self)
        requires
            transposition_tables.wf(),
        ensures
            cube.wf(),
            cube.ep == lehmer_rank(identity_perm(12)),
            cube.transposition_tables == transposition_tables,
    {
        let cube = Cube::new();
        Self { ep: cube.ep_coord(), transposition_tables }
    }

    /// A quarter turn of the upper face, looked up in the tables.
    pub fn u(&mut self)
        requires
            old(self).wf(),
        ensures
            final(self).wf(),
            final(self).ep == u_coord(old(self).ep as nat),
            final(self).transposition_tables == old(self).transposition_tables,
    {
        self.ep = lookup(&self.transposition_tables.u, self.ep);
    }

    /// A quarter turn of the left face, looked up in the tables.
    pub fn l(&mut self)
        requires
            old(self).wf(),
        ensures
            final(self).wf(),
            final(self).ep == l_coord(old(self).ep as nat),
            final(self).transposition_tables == old(self).transposition_tables,
    {
        self.ep = lookup(&self.transposition_tables.l, self.ep);
    }

    /// A quarter turn of the front face, looked up in the tables.
    pub fn f(&mut self)
        requires
            old(self).wf(),
        ensures
            final(self).wf(),
            final(self).ep == f_coord(old(self).ep as nat),
            final(self).transposition_tables == old(self).transposition_tables,
    {
        self.ep = lookup(&self.transposition_tables.f, self.ep);
    }

    /// A quarter turn of the right face, looked up in the tables.
    pub fn r(&mut self)
        requires
            old(self).wf(),
        ensures
            final(self).wf(),
            final(self).ep == r_coord(old(self).ep as nat),
            final(self).transposition_tables == old(self).transposition_tables,
    {
        self.ep = lookup(&self.transposition_tables.r, self.ep);
    }

    /// A quarter turn of the back face, looked up in the tables.
    pub fn b(&mut self)
        requires
            old(self).wf(),
        ensures
            final(self).wf(),
            final(self).ep == b_coord(old(self).ep as nat),
            final(self).transposition_tables == old(self).transposition_tables,
    {
        self.ep = lookup(&self.transposition_tables.b, self.ep);
    }

    /// A quarter turn of the lower face, looked up in the tables.
    pub fn d(&mut self)
        requires
            old(self).wf(),
        ensures
            final(self).wf(),
            final(self).ep == d_coord(old(self).ep as nat),
            final(self).transposition_tables == old(self).transposition_tables,
    {
        self.ep = lookup(&self.transposition_tables.d, self.ep);
    }

    /// The state number: the edge coordinate.
    pub fn encode(&self) -> (state: u64)
        ensures
            state == self.ep,
    {
        self.ep as u64
    }

    /// Takes the cube to the state with the given number.
    pub fn decode(&mut self, coord: u64)
        requires
            coord < EP_SIZE,
        ensures
            final(self).ep == coord,
            final(self).transposition_tables == old(self).transposition_tables,
    {
        self.ep = coord as u32;
    }
}

} // verus!
