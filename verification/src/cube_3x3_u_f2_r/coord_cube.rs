//! The cube as its two coordinates and its sign, moved by table lookups.

use vstd::prelude::*;
use crate::cube_3x3_u_f2_r::cube::{
    lemma_sizes, Cube, CubeState, InvalidMove, CORNERS_SIZE, CO_SIZE, EP_SIZE, STATE_SIZE,
};
use crate::cube_3x3_u_f2_r::transposition_tables::{
    f2_corners, f2_edges_even, f2_edges_odd, r_corners, r_edges, u_corners, u_edges,
    TranspositionTables,
};
use crate::parity::even;
use crate::permutation::lehmer_unrank;
use crate::table::lookup;

verus! {

#[derive(Clone)]
pub struct CoordCube<'a> {
    pub edges: u32,
    pub corners: u32,
    pub is_even_perm: bool,
    pub transposition_tables: &'a TranspositionTables,
}

impl<'a> CoordCube<'a> {
    /// The coordinates are in range and the tables are what they claim to
    /// be.
    pub open spec fn wf(&self) -> bool {
        &&& self.edges < EP_SIZE
        &&& self.corners < CORNERS_SIZE
        &&& self.transposition_tables.wf()
    }

    /// The coordinates are those of the cube `s`, and so is the sign.
    pub open spec fn stands_for(&self, s: CubeState) -> bool {
        &&& self.edges == s.ep_coord()
        &&& self.corners == s.corners_coord()
        &&& self.is_even_perm == s.is_even_perm
    }

    /// The state number: edges and corners, the edges in the higher place.
    pub open spec fn encode_spec(&self) -> nat {
        self.edges as nat * CORNERS_SIZE as nat + self.corners as nat
    }

    /// The solved cube over the given tables.
    pub fn new(transposition_tables: &'a TranspositionTables) -> (cube: Self)
        requires
            transposition_tables.wf(),
        ensures
            cube.wf(),
            cube.stands_for(CubeState::solved()),
            cube.transposition_tables == transposition_tables,
    {
        let cube = Cube::new();
        Self {
            edges: cube.ep_coord(),
            corners: cube.corners_coord(),
            is_even_perm: cube.is_even_perm,
            transposition_tables,
        }
    }

    /// A quarter turn of the upper face, looked up in the tables.
    pub fn u(&mut self)
        requires
            old(self).wf(),
        ensures
            final(self).wf(),
            final(self).edges == u_edges(old(self).edges as nat),
            final(self).corners == u_corners(old(self).corners as nat),
            final(self).is_even_perm == !old(self).is_even_perm,
            final(self).transposition_tables == old(self).transposition_tables,
    {
        self.edges = lookup(&self.transposition_tables.u_edges, self.edges);
        self.corners = lookup(&self.transposition_tables.u_corners, self.corners);
        self.is_even_perm = !self.is_even_perm;
    }

    /// A quarter turn of the right face, looked up in the tables.
    pub fn r(&mut self)
        requires
            old(self).wf(),
        ensures
            final(self).wf(),
            final(self).edges == r_edges(old(self).edges as nat),
            final(self).corners == r_corners(old(self).corners as nat),
            final(self).is_even_perm == !old(self).is_even_perm,
            final(self).transposition_tables == old(self).transposition_tables,
    {
        self.edges = lookup(&self.transposition_tables.r_edges, self.edges);
        self.corners = lookup(&self.transposition_tables.r_corners, self.corners);
        self.is_even_perm = !self.is_even_perm;
    }

    /// F2 moves the last two edges, so the sign picks the edge table.
    pub fn f2(&mut self)
        requires
            old(self).wf(),
        ensures
            final(self).wf(),
            final(self).edges == if old(self).is_even_perm {
                f2_edges_even(old(self).edges as nat)
            } else {
                f2_edges_odd(old(self).edges as nat)
            },
            final(self).corners == f2_corners(old(self).corners as nat),
            final(self).is_even_perm == old(self).is_even_perm,
            final(self).transposition_tables == old(self).transposition_tables,
    {
        self.edges = if self.is_even_perm {
            lookup(&self.transposition_tables.f2_edges_even, self.edges)
        } else {
            lookup(&self.transposition_tables.f2_edges_odd, self.edges)
        };
        self.corners = lookup(&self.transposition_tables.f2_corners, self.corners);
    }

    /// Does the move with the given number: 0 for U, 1 for R, 2 for F2.
    /// Any other number is refused and leaves the cube as it is.
    pub fn do_move(&mut self, m: u8) -> (done: Result<(), InvalidMove>)
        requires
            old(self).wf(),
        ensures
            final(self).wf(),
            final(self).transposition_tables == old(self).transposition_tables,
            done is Ok <==> m <= 2,
            ({
                let e = old(self).edges as nat;
                let c = old(self).corners as nat;
                let p = old(self).is_even_perm;
                let now = (final(self).edges as nat, final(self).corners as nat, final(self).is_even_perm);
                &&& m == 0 ==> now == (u_edges(e), u_corners(c), !p)
                &&& m == 1 ==> now == (r_edges(e), r_corners(c), !p)
                &&& m == 2 ==> now == (
                    if p {
                        f2_edges_even(e)
                    } else {
                        f2_edges_odd(e)
                    },
                    f2_corners(c),
                    p,
                )
                &&& m > 2 ==> now == (e, c, p)
            }),
    {
        match m {
            0 => {
                self.u();
                Ok(())
            },
            1 => {
                self.r();
                Ok(())
            },
            2 => {
                self.f2();
                Ok(())
            },
            _ => Err(InvalidMove),
        }
    }

    /// The state number.
    pub fn encode(&self) -> (state: u64)
        requires
            self.edges < EP_SIZE,
            self.corners < CORNERS_SIZE,
        ensures
            state == self.encode_spec(),
            state < STATE_SIZE,
    {
        proof {
            lemma_sizes();
        }
        self.edges as u64 * CORNERS_SIZE as u64 + self.corners as u64
    }

    /// Takes the cube to the state with the given number, and works the
    /// sign out from the corners.
    pub fn decode(&mut self, coord: u64)
        requires
            coord < STATE_SIZE,
        ensures
            final(self).edges == coord / CORNERS_SIZE as u64,
            final(self).corners == coord % CORNERS_SIZE as u64,
            final(self).is_even_perm == even(
                lehmer_unrank((final(self).corners / CO_SIZE) as nat, 7),
            ),
            final(self).encode_spec() == coord,
            final(self).edges < EP_SIZE,
            final(self).corners < CORNERS_SIZE,
            final(self).transposition_tables == old(self).transposition_tables,
    {
        proof {
            lemma_sizes();
        }
        self.corners = (coord % CORNERS_SIZE as u64) as u32;
        self.edges = (coord / CORNERS_SIZE as u64) as u32;
        let mut cube = Cube::new();
        cube.set_corners_coord(self.corners);
        self.is_even_perm = cube.is_even_perm;
    }
}

} // verus!
