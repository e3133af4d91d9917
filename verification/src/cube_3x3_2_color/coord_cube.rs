//! The cube as its two coordinates, moved by table lookups.

use vstd::prelude::*;
use crate::cube_3x3_2_color::cube::{
    lemma_sizes, Cube, CubeState, CORNERS_SIZE, EDGES_SIZE, STATE_SIZE,
};
use crate::cube_3x3_2_color::transposition_tables::{
    b_corners, b_edges, d_corners, d_edges, f_corners, f_edges, l_corners, l_edges, r_corners,
    r_edges, u_corners, u_edges, TranspositionTables,
};
use crate::table::lookup;

verus! {

#[derive(Clone)]
pub struct CoordCube<'a> {
    pub edges: u32,
    pub corners: u32,
    pub transposition_tables: &'a TranspositionTables,
}

/// An edge and a corner coordinate.
pub struct Coords {
    pub edges: nat,
    pub corners: nat,
}

impl Coords {
    /// The coordinates that make up a state number.
    pub open spec fn of(state: nat) -> Coords {
        Coords { edges: state / CORNERS_SIZE as nat, corners: state % CORNERS_SIZE as nat }
    }

    /// The state number: edges and corners, the edges in the higher place.
    pub open spec fn encode(self) -> nat {
        self.edges * CORNERS_SIZE as nat + self.corners
    }

    /// Both coordinates are below their sizes.
    pub open spec fn in_range(self) -> bool {
        self.edges < EDGES_SIZE && self.corners < CORNERS_SIZE
    }

    /// The coordinates after a quarter turn of the upper face.
    pub open spec fn u(self) -> Coords {
        Coords { edges: u_edges(self.edges), corners: u_corners(self.corners) }
    }

    /// The coordinates after a quarter turn of the left face.
    pub open spec fn l(self) -> Coords {
        Coords { edges: l_edges(self.edges), corners: l_corners(self.corners) }
    }

    /// The coordinates after a quarter turn of the front face.
    pub open spec fn f(self) -> Coords {
        Coords { edges: f_edges(self.edges), corners: f_corners(self.corners) }
    }

    /// The coordinates after a quarter turn of the right face.
    pub open spec fn r(self) -> Coords {
        Coords { edges: r_edges(self.edges), corners: r_corners(self.corners) }
    }

    /// The coordinates after a quarter turn of the back face.
    pub open spec fn b(self) -> Coords {
        Coords { edges: b_edges(self.edges), corners: b_corners(self.corners) }
    }

    /// The coordinates after a quarter turn of the lower face.
    pub open spec fn d(self) -> Coords {
        Coords { edges: d_edges(self.edges), corners: d_corners(self.corners) }
    }

}

impl<'a> View for CoordCube<'a> {
    type V = Coords;

    open spec fn view(&self) -> Coords {
        Coords { edges: self.edges as nat, corners: self.corners as nat }
    }
}

impl<'a> CoordCube<'a> {
    /// The coordinates are in range and the tables are what they claim to
    /// be.
    pub open spec fn wf(&self) -> bool {
        &&& self@.in_range()
        &&& self.transposition_tables.wf()
    }

    /// The solved cube over the given tables.
    pub fn new(transposition_tables: &'a TranspositionTables) -> (cube: Self)
        requires
            transposition_tables.wf(),
        ensures
            cube.wf(),
            cube.edges == CubeState::solved().edges_coord(),
            cube.corners == CubeState::solved().corners_coord(),
            cube.transposition_tables == transposition_tables,
    {
        let cube = Cube::new();
        Self { edges: cube.edges_coord(), corners: cube.corners_coord(), transposition_tables }
    }

    /// A quarter turn of the upper face, looked up in the tables.
    pub fn u(&mut self)
        requires
            old(self).wf(),
        ensures
            final(self).wf(),
            final(self)@ == old(self)@.u(),
            final(self).transposition_tables == old(self).transposition_tables,
    {
        self.edges = lookup(&self.transposition_tables.u_edges, self.edges);
        self.corners = lookup(&self.transposition_tables.u_corners, self.corners);
    }

    /// A quarter turn of the left face, looked up in the tables.
    pub fn l(&mut self)
        requires
            old(self).wf(),
        ensures
            final(self).wf(),
            final(self)@ == old(self)@.l(),
            final(self).transposition_tables == old(self).transposition_tables,
    {
        self.edges = lookup(&self.transposition_tables.l_edges, self.edges);
        self.corners = lookup(&self.transposition_tables.l_corners, self.corners);
    }

    /// A quarter turn of the front face, looked up in the tables.
    pub fn f(&mut self)
        requires
            old(self).wf(),
        ensures
            final(self).wf(),
            final(self)@ == old(self)@.f(),
            final(self).transposition_tables == old(self).transposition_tables,
    {
        self.edges = lookup(&self.transposition_tables.f_edges, self.edges);
        self.corners = lookup(&self.transposition_tables.f_corners, self.corners);
    }

    /// A quarter turn of the right face, looked up in the tables.
    pub fn r(&mut self)
        requires
            old(self).wf(),
        ensures
            final(self).wf(),
            final(self)@ == old(self)@.r(),
            final(self).transposition_tables == old(self).transposition_tables,
    {
        self.edges = lookup(&self.transposition_tables.r_edges, self.edges);
        self.corners = lookup(&self.transposition_tables.r_corners, self.corners);
    }

    /// A quarter turn of the back face, looked up in the tables.
    pub fn b(&mut self)
        requires
            old(self).wf(),
        ensures
            final(self).wf(),
            final(self)@ == old(self)@.b(),
            final(self).transposition_tables == old(self).transposition_tables,
    {
        self.edges = lookup(&self.transposition_tables.b_edges, self.edges);
        self.corners = lookup(&self.transposition_tables.b_corners, self.corners);
    }

    /// A quarter turn of the lower face, looked up in the tables.
    pub fn d(&mut self)
        requires
            old(self).wf(),
        ensures
            final(self).wf(),
            final(self)@ == old(self)@.d(),
            final(self).transposition_tables == old(self).transposition_tables,
    {
        self.edges = lookup(&self.transposition_tables.d_edges, self.edges);
        self.corners = lookup(&self.transposition_tables.d_corners, self.corners);
    }

    /// The state number.
    pub fn encode(&self) -> (state: u64)
        requires
            self@.in_range(),
        ensures
            state == self@.encode(),
            state < STATE_SIZE,
    {
        proof {
            lemma_sizes();
        }
        self.edges as u64 * CORNERS_SIZE as u64 + self.corners as u64
    }

    /// Takes the cube to the state with the given number.
    pub fn decode(&mut self, coord: u64)
        requires
            coord < STATE_SIZE,
        ensures
            final(self)@ == Coords::of(coord as nat),
            final(self)@.in_range(),
            final(self)@.encode() == coord,
            final(self).transposition_tables == old(self).transposition_tables,
    {
        proof {
            lemma_sizes();
        }
        self.edges = (coord / CORNERS_SIZE as u64) as u32;
        self.corners = (coord % CORNERS_SIZE as u64) as u32;
    }
}

} // verus!
