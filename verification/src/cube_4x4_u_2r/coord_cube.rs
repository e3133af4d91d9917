//! The cube as its two coordinates, moved by table lookups.

use vstd::prelude::*;
use crate::cube_4x4_u_2r::cube::{
    lemma_sizes, Cube, CubeState, CENTERS_CORNERS_SIZE, EDGES_SIZE, STATE_SIZE,
};
use crate::cube_4x4_u_2r::transposition_tables::{
    r2_centers_corners, r2_edges, r_centers_corners, r_edges, u2_centers_corners, u2_edges,
    u_centers_corners, u_edges, up_centers_corners, up_edges, ur_centers_corners, ur_edges,
    urp_centers_corners, urp_edges, TranspositionTables,
};
use crate::table::lookup;

verus! {

#[derive(Clone)]
pub struct CoordCube<'a> {
    pub edges: u32,
    pub centers_corners: u32,
    pub transposition_tables: &'a TranspositionTables,
}

/// An edge coordinate and a coordinate of centres and corners.
pub struct Coords {
    pub edges: nat,
    pub centers_corners: nat,
}

impl Coords {
    /// The coordinates that make up a state number.
    pub open spec fn of(state: nat) -> Coords {
        Coords {
            edges: state / CENTERS_CORNERS_SIZE as nat,
            centers_corners: state % CENTERS_CORNERS_SIZE as nat,
        }
    }

    /// The coordinates of a cube.
    pub open spec fn of_state(s: CubeState) -> Coords {
        Coords { edges: s.edge_coord(), centers_corners: s.center_corner_coord() }
    }

    /// The state number: edges, then centres and corners.
    pub open spec fn encode(self) -> nat {
        self.edges * CENTERS_CORNERS_SIZE as nat + self.centers_corners
    }

    /// Both coordinates are below their sizes.
    pub open spec fn in_range(self) -> bool {
        self.edges < EDGES_SIZE && self.centers_corners < CENTERS_CORNERS_SIZE
    }

    /// The coordinates after U.
    pub open spec fn u(self) -> Coords {
        Coords {
            edges: u_edges(self.edges),
            centers_corners: u_centers_corners(self.centers_corners),
        }
    }

    /// The coordinates after U twice.
    pub open spec fn u2(self) -> Coords {
        Coords {
            edges: u2_edges(self.edges),
            centers_corners: u2_centers_corners(self.centers_corners),
        }
    }

    /// The coordinates after U three times.
    pub open spec fn up(self) -> Coords {
        Coords {
            edges: up_edges(self.edges),
            centers_corners: up_centers_corners(self.centers_corners),
        }
    }

    /// The coordinates after U and then 2R.
    pub open spec fn ur(self) -> Coords {
        Coords {
            edges: ur_edges(self.edges),
            centers_corners: ur_centers_corners(self.centers_corners),
        }
    }

    /// The coordinates after U and then 2R three times.
    pub open spec fn urp(self) -> Coords {
        Coords {
            edges: urp_edges(self.edges),
            centers_corners: urp_centers_corners(self.centers_corners),
        }
    }

    /// The coordinates after 2R.
    pub open spec fn r(self) -> Coords {
        Coords {
            edges: r_edges(self.edges),
            centers_corners: r_centers_corners(self.centers_corners),
        }
    }

    /// The coordinates after 2R twice.
    pub open spec fn r2(self) -> Coords {
        Coords {
            edges: r2_edges(self.edges),
            centers_corners: r2_centers_corners(self.centers_corners),
        }
    }

}

impl<'a> View for CoordCube<'a> {
    type V = Coords;

    open spec fn view(&self) -> Coords {
        Coords { edges: self.edges as nat, centers_corners: self.centers_corners as nat }
    }
}

impl<'a> CoordCube<'a> {
    /// The coordinates are in range and the tables are what they claim to
    /// be.
    pub open spec fn wf(&self) -> bool {
        &&& self@.in_range()
        &&& self.transposition_tables.wf()
    }

    /// The solved cube over the given tables.
    pub fn new(transposition_tables: &'a TranspositionTables) -> (cube: Self)
        requires
            transposition_tables.wf(),
        ensures
            cube.wf(),
            cube@ == Coords::of_state(CubeState::solved()),
            cube.transposition_tables == transposition_tables,
    {
        let cube = Cube::new();
        Self {
            edges: cube.edge_coord(),
            centers_corners: cube.center_corner_coord(),
            transposition_tables,
        }
    }

    /// U, in one lookup.
    pub fn u(&mut self)
        requires
            old(self).wf(),
        ensures
            final(self).wf(),
            final(self)@ == old(self)@.u(),
            final(self).transposition_tables == old(self).transposition_tables,
    {
        self.edges = lookup(&self.transposition_tables.u_edges, self.edges);
        self.centers_corners = lookup(
            &self.transposition_tables.u_centers_corners,
            self.centers_corners,
        );
    }

    /// U twice, in one lookup.
    pub fn u2(&mut self)
        requires
            old(self).wf(),
        ensures
            final(self).wf(),
            final(self)@ == old(self)@.u2(),
            final(self).transposition_tables == old(self).transposition_tables,
    {
        self.edges = lookup(&self.transposition_tables.u2_edges, self.edges);
        self.centers_corners = lookup(
            &self.transposition_tables.u2_centers_corners,
            self.centers_corners,
        );
    }

    /// U three times, in one lookup.
    pub fn up(&mut self)
        requires
            old(self).wf(),
        ensures
            final(self).wf(),
            final(self)@ == old(self)@.up(),
            final(self).transposition_tables == old(self).transposition_tables,
    {
        self.edges = lookup(&self.transposition_tables.up_edges, self.edges);
        self.centers_corners = lookup(
            &self.transposition_tables.up_centers_corners,
            self.centers_corners,
        );
    }

    /// U and then 2R, in one lookup.
    pub fn ur(&mut self)
        requires
            old(self).wf(),
        ensures
            final(self).wf(),
            final(self)@ == old(self)@.ur(),
            final(self).transposition_tables == old(self).transposition_tables,
    {
        self.edges = lookup(&self.transposition_tables.ur_edges, self.edges);
        self.centers_corners = lookup(
            &self.transposition_tables.ur_centers_corners,
            self.centers_corners,
        );
    }

    /// U and then 2R three times, in one lookup.
    pub fn urp(&mut self)
        requires
            old(self).wf(),
        ensures
            final(self).wf(),
            final(self)@ == old(self)@.urp(),
            final(self).transposition_tables == old(self).transposition_tables,
    {
        self.edges = lookup(&self.transposition_tables.urp_edges, self.edges);
        self.centers_corners = lookup(
            &self.transposition_tables.urp_centers_corners,
            self.centers_corners,
        );
    }

    /// 2R, in one lookup.
    pub fn r(&mut self)
        requires
            old(self).wf(),
        ensures
            final(self).wf(),
            final(self)@ == old(self)@.r(),
            final(self).transposition_tables == old(self).transposition_tables,
    {
        self.edges = lookup(&self.transposition_tables.r_edges, self.edges);
        self.centers_corners = lookup(
            &self.transposition_tables.r_centers_corners,
            self.centers_corners,
        );
    }

    /// 2R twice, in one lookup.
    pub fn r2(&mut self)
        requires
            old(self).wf(),
        ensures
            final(self).wf(),
            final(self)@ == old(self)@.r2(),
            final(self).transposition_tables == old(self).transposition_tables,
    {
        self.edges = lookup(&self.transposition_tables.r2_edges, self.edges);
        self.centers_corners = lookup(
            &self.transposition_tables.r2_centers_corners,
            self.centers_corners,
        );
    }

    /// The state number.
    pub fn encode(&self) -> (state: u64)
        requires
            self@.in_range(),
        ensures
            state == self@.encode(),
            state < STATE_SIZE,
    {
        proof {
            lemma_sizes();
        }
        self.edges as u64 * 75600 + self.centers_corners as u64
    }

    /// Takes the cube to the state with the given number.
    pub fn decode(&mut self, coord: u64)
        requires
            coord < STATE_SIZE,
        ensures
            final(self)@ == Coords::of(coord as nat),
            final(self)@.in_range(),
            final(self)@.encode() == coord,
            final(self).transposition_tables == old(self).transposition_tables,
    {
        proof {
            lemma_sizes();
        }
        self.edges = (coord / 75600) as u32;
        self.centers_corners = (coord % 75600) as u32;
    }
}

} // verus!
