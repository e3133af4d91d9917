//! The tables of the moves over the edge coordinate and over the
//! coordinate of centres and corners.

use vstd::prelude::*;
use crate::cube_4x4_u_2r::cube::{
    lemma_decode_of_encode, lemma_sizes, Cube, CubeState, CENTERS_CORNERS_SIZE, EDGES_SIZE,
};
use crate::table::{tabulates, tabulates_upto};

verus! {

pub struct TranspositionTables {
    pub u_edges: Vec<u32>,
    pub u_centers_corners: Vec<u32>,
    pub u2_edges: Vec<u32>,
    pub u2_centers_corners: Vec<u32>,
    pub up_edges: Vec<u32>,
    pub up_centers_corners: Vec<u32>,
    pub ur_edges: Vec<u32>,
    pub ur_centers_corners: Vec<u32>,
    pub urp_edges: Vec<u32>,
    pub urp_centers_corners: Vec<u32>,
    pub r_edges: Vec<u32>,
    pub r_centers_corners: Vec<u32>,
    pub r2_edges: Vec<u32>,
    pub r2_centers_corners: Vec<u32>,
}

/// The cube whose edges have the coordinate `coord`.
pub open spec fn of_edges(coord: nat) -> CubeState {
    CubeState::solved().with_edge_coord(coord)
}

/// The cube whose centres and corners have the coordinate `coord`.
pub open spec fn of_centers_corners(coord: nat) -> CubeState {
    CubeState::solved().with_center_corner_coord(coord)
}

/// The edge coordinate after U.
#[verifier::opaque]
pub open spec fn u_edges(coord: nat) -> nat {
    of_edges(coord).u().edge_coord()
}

/// The coordinate of centres and corners after U.
#[verifier::opaque]
pub open spec fn u_centers_corners(coord: nat) -> nat {
    of_centers_corners(coord).u().center_corner_coord()
}

/// The edge coordinate after U twice.
#[verifier::opaque]
pub open spec fn u2_edges(coord: nat) -> nat {
    of_edges(coord).u().u().edge_coord()
}

/// The coordinate of centres and corners after U twice.
#[verifier::opaque]
pub open spec fn u2_centers_corners(coord: nat) -> nat {
    of_centers_corners(coord).u().u().center_corner_coord()
}

/// The edge coordinate after U three times.
#[verifier::opaque]
pub open spec fn up_edges(coord: nat) -> nat {
    of_edges(coord).u().u().u().edge_coord()
}

/// The coordinate of centres and corners after U three times.
#[verifier::opaque]
pub open spec fn up_centers_corners(coord: nat) -> nat {
    of_centers_corners(coord).u().u().u().center_corner_coord()
}

/// The edge coordinate after U and then 2R.
#[verifier::opaque]
pub open spec fn ur_edges(coord: nat) -> nat {
    of_edges(coord).u().r().edge_coord()
}

/// The coordinate of centres and corners after U and then 2R.
#[verifier::opaque]
pub open spec fn ur_centers_corners(coord: nat) -> nat {
    of_centers_corners(coord).u().r().center_corner_coord()
}

/// The edge coordinate after U and then 2R three times.
#[verifier::opaque]
pub open spec fn urp_edges(coord: nat) -> nat {
    of_edges(coord).u().r().r().r().edge_coord()
}

/// The coordinate of centres and corners after U and then 2R three times.
#[verifier::opaque]
pub open spec fn urp_centers_corners(coord: nat) -> nat {
    of_centers_corners(coord).u().r().r().r().center_corner_coord()
}

/// The edge coordinate after 2R.
#[verifier::opaque]
pub open spec fn r_edges(coord: nat) -> nat {
    of_edges(coord).r().edge_coord()
}

/// The coordinate of centres and corners after 2R.
#[verifier::opaque]
pub open spec fn r_centers_corners(coord: nat) -> nat {
    of_centers_corners(coord).r().center_corner_coord()
}

/// The edge coordinate after 2R twice.
#[verifier::opaque]
pub open spec fn r2_edges(coord: nat) -> nat {
    of_edges(coord).r().r().edge_coord()
}

/// The coordinate of centres and corners after 2R twice.
#[verifier::opaque]
pub open spec fn r2_centers_corners(coord: nat) -> nat {
    of_centers_corners(coord).r().r().center_corner_coord()
}

impl TranspositionTables {
    /// Each table holds, for every coordinate, the coordinate after its
    /// moves.
    pub open spec fn wf(&self) -> bool {
        &&& tabulates(self.u_edges@, EDGES_SIZE as nat, |c: nat| u_edges(c))
        &&& tabulates(
            self.u_centers_corners@,
            CENTERS_CORNERS_SIZE as nat,
            |c: nat| u_centers_corners(c),
        )
        &&& tabulates(self.u2_edges@, EDGES_SIZE as nat, |c: nat| u2_edges(c))
        &&& tabulates(
            self.u2_centers_corners@,
            CENTERS_CORNERS_SIZE as nat,
            |c: nat| u2_centers_corners(c),
        )
        &&& tabulates(self.up_edges@, EDGES_SIZE as nat, |c: nat| up_edges(c))
        &&& tabulates(
            self.up_centers_corners@,
            CENTERS_CORNERS_SIZE as nat,
            |c: nat| up_centers_corners(c),
        )
        &&& tabulates(self.ur_edges@, EDGES_SIZE as nat, |c: nat| ur_edges(c))
        &&& tabulates(
            self.ur_centers_corners@,
            CENTERS_CORNERS_SIZE as nat,
            |c: nat| ur_centers_corners(c),
        )
        &&& tabulates(self.urp_edges@, EDGES_SIZE as nat, |c: nat| urp_edges(c))
        &&& tabulates(
            self.urp_centers_corners@,
            CENTERS_CORNERS_SIZE as nat,
            |c: nat| urp_centers_corners(c),
        )
        &&& tabulates(self.r_edges@, EDGES_SIZE as nat, |c: nat| r_edges(c))
        &&& tabulates(
            self.r_centers_corners@,
            CENTERS_CORNERS_SIZE as nat,
            |c: nat| r_centers_corners(c),
        )
        &&& tabulates(self.r2_edges@, EDGES_SIZE as nat, |c: nat| r2_edges(c))
        &&& tabulates(
            self.r2_centers_corners@,
            CENTERS_CORNERS_SIZE as nat,
            |c: nat| r2_centers_corners(c),
        )
    }

    /// Builds the fourteen tables: for every coordinate the cube is set up
    /// once, and each table's moves are made on a copy of it.
    pub fn new() -> (tables: Self)
        ensures
            tables.wf(),
    {
        let mut u_edges_table: Vec<u32> = Vec::with_capacity(EDGES_SIZE as usize);
        let mut u2_edges_table: Vec<u32> = Vec::with_capacity(EDGES_SIZE as usize);
        let mut up_edges_table: Vec<u32> = Vec::with_capacity(EDGES_SIZE as usize);
        let mut ur_edges_table: Vec<u32> = Vec::with_capacity(EDGES_SIZE as usize);
        let mut urp_edges_table: Vec<u32> = Vec::with_capacity(EDGES_SIZE as usize);
        let mut r_edges_table: Vec<u32> = Vec::with_capacity(EDGES_SIZE as usize);
        let mut r2_edges_table: Vec<u32> = Vec::with_capacity(EDGES_SIZE as usize);
        let mut u_centers_corners_table: Vec<u32> = Vec::with_capacity(CENTERS_CORNERS_SIZE as usize);
        let mut u2_centers_corners_table: Vec<u32> = Vec::with_capacity(CENTERS_CORNERS_SIZE as usize);
        let mut up_centers_corners_table: Vec<u32> = Vec::with_capacity(CENTERS_CORNERS_SIZE as usize);
        let mut ur_centers_corners_table: Vec<u32> = Vec::with_capacity(CENTERS_CORNERS_SIZE as usize);
        let mut urp_centers_corners_table: Vec<u32> = Vec::with_capacity(CENTERS_CORNERS_SIZE as usize);
        let mut r_centers_corners_table: Vec<u32> = Vec::with_capacity(CENTERS_CORNERS_SIZE as usize);
        let mut r2_centers_corners_table: Vec<u32> = Vec::with_capacity(CENTERS_CORNERS_SIZE as usize);

        let mut i: u32 = 0;
        while i < EDGES_SIZE
            invariant
                i <= EDGES_SIZE,
                tabulates_upto(
                    u_edges_table@,
                    i as nat,
                    EDGES_SIZE as nat,
                    |c: nat| u_edges(c),
                ),
                tabulates_upto(
                    u2_edges_table@,
                    i as nat,
                    EDGES_SIZE as nat,
                    |c: nat| u2_edges(c),
                ),
                tabulates_upto(
                    up_edges_table@,
                    i as nat,
                    EDGES_SIZE as nat,
                    |c: nat| up_edges(c),
                ),
                tabulates_upto(
                    ur_edges_table@,
                    i as nat,
                    EDGES_SIZE as nat,
                    |c: nat| ur_edges(c),
                ),
                tabulates_upto(
                    urp_edges_table@,
                    i as nat,
                    EDGES_SIZE as nat,
                    |c: nat| urp_edges(c),
                ),
                tabulates_upto(
                    r_edges_table@,
                    i as nat,
                    EDGES_SIZE as nat,
                    |c: nat| r_edges(c),
                ),
                tabulates_upto(
                    r2_edges_table@,
                    i as nat,
                    EDGES_SIZE as nat,
                    |c: nat| r2_edges(c),
                ),
            decreases EDGES_SIZE - i,
        {
            proof {
                reveal(u_edges);
                reveal(u2_edges);
                reveal(up_edges);
                reveal(ur_edges);
                reveal(urp_edges);
                reveal(r_edges);
                reveal(r2_edges);
            }
            let mut start = Cube::new();
            start.set_edge_coord(i);
            let mut cube = start;
            cube.u();
            u_edges_table.push(cube.edge_coord());
            let mut after_u = cube;
            cube.r();
            ur_edges_table.push(cube.edge_coord());
            cube.r();
            cube.r();
            urp_edges_table.push(cube.edge_coord());
            after_u.u();
            u2_edges_table.push(after_u.edge_coord());
            after_u.u();
            up_edges_table.push(after_u.edge_coord());
            let mut cube = start;
            cube.r();
            r_edges_table.push(cube.edge_coord());
            cube.r();
            r2_edges_table.push(cube.edge_coord());
            i = i + 1;
        }

        let mut i: u32 = 0;
        while i < CENTERS_CORNERS_SIZE
            invariant
                i <= CENTERS_CORNERS_SIZE,
                tabulates_upto(
                    u_centers_corners_table@,
                    i as nat,
                    CENTERS_CORNERS_SIZE as nat,
                    |c: nat| u_centers_corners(c),
                ),
                tabulates_upto(
                    u2_centers_corners_table@,
                    i as nat,
                    CENTERS_CORNERS_SIZE as nat,
                    |c: nat| u2_centers_corners(c),
                ),
                tabulates_upto(
                    up_centers_corners_table@,
                    i as nat,
                    CENTERS_CORNERS_SIZE as nat,
                    |c: nat| up_centers_corners(c),
                ),
                tabulates_upto(
                    ur_centers_corners_table@,
                    i as nat,
                    CENTERS_CORNERS_SIZE as nat,
                    |c: nat| ur_centers_corners(c),
                ),
                tabulates_upto(
                    urp_centers_corners_table@,
                    i as nat,
                    CENTERS_CORNERS_SIZE as nat,
                    |c: nat| urp_centers_corners(c),
                ),
                tabulates_upto(
                    r_centers_corners_table@,
                    i as nat,
                    CENTERS_CORNERS_SIZE as nat,
                    |c: nat| r_centers_corners(c),
                ),
                tabulates_upto(
                    r2_centers_corners_table@,
                    i as nat,
                    CENTERS_CORNERS_SIZE as nat,
                    |c: nat| r2_centers_corners(c),
                ),
            decreases CENTERS_CORNERS_SIZE - i,
        {
            proof {
                reveal(u_centers_corners);
                reveal(u2_centers_corners);
                reveal(up_centers_corners);
                reveal(ur_centers_corners);
                reveal(urp_centers_corners);
                reveal(r_centers_corners);
                reveal(r2_centers_corners);
            }
            let mut start = Cube::new();
            start.set_center_corner_coord(i);
            let mut cube = start;
            cube.u();
            u_centers_corners_table.push(cube.center_corner_coord());
            let mut after_u = cube;
            cube.r();
            ur_centers_corners_table.push(cube.center_corner_coord());
            cube.r();
            cube.r();
            urp_centers_corners_table.push(cube.center_corner_coord());
            after_u.u();
            u2_centers_corners_table.push(after_u.center_corner_coord());
            after_u.u();
            up_centers_corners_table.push(after_u.center_corner_coord());
            let mut cube = start;
            cube.r();
            r_centers_corners_table.push(cube.center_corner_coord());
            cube.r();
            r2_centers_corners_table.push(cube.center_corner_coord());
            i = i + 1;
        }

        Self {
            u_edges: u_edges_table,
            u_centers_corners: u_centers_corners_table,
            u2_edges: u2_edges_table,
            u2_centers_corners: u2_centers_corners_table,
            up_edges: up_edges_table,
            up_centers_corners: up_centers_corners_table,
            ur_edges: ur_edges_table,
            ur_centers_corners: ur_centers_corners_table,
            urp_edges: urp_edges_table,
            urp_centers_corners: urp_centers_corners_table,
            r_edges: r_edges_table,
            r_centers_corners: r_centers_corners_table,
            r2_edges: r2_edges_table,
            r2_centers_corners: r2_centers_corners_table,
        }
    }
}

/// The tables follow the cube: looking moves up at the coordinates of a
/// well-formed cube gives the coordinates of the cube after the moves.
pub proof fn lemma_tables_follow(s: CubeState)
    requires
        s.wf(),
    ensures
        s.edge_coord() < EDGES_SIZE,
        s.center_corner_coord() < CENTERS_CORNERS_SIZE,
        u_edges(s.edge_coord()) == s.u().edge_coord(),
        u_centers_corners(s.center_corner_coord()) == s.u().center_corner_coord(),
        u2_edges(s.edge_coord()) == s.u().u().edge_coord(),
        u2_centers_corners(s.center_corner_coord()) == s.u().u().center_corner_coord(),
        up_edges(s.edge_coord()) == s.u().u().u().edge_coord(),
        up_centers_corners(s.center_corner_coord()) == s.u().u().u().center_corner_coord(),
        ur_edges(s.edge_coord()) == s.u().r().edge_coord(),
        ur_centers_corners(s.center_corner_coord()) == s.u().r().center_corner_coord(),
        urp_edges(s.edge_coord()) == s.u().r().r().r().edge_coord(),
        urp_centers_corners(s.center_corner_coord()) == s.u().r().r().r().center_corner_coord(),
        r_edges(s.edge_coord()) == s.r().edge_coord(),
        r_centers_corners(s.center_corner_coord()) == s.r().center_corner_coord(),
        r2_edges(s.edge_coord()) == s.r().r().edge_coord(),
        r2_centers_corners(s.center_corner_coord()) == s.r().r().center_corner_coord(),
{
    reveal(CubeState::u);
    reveal(CubeState::r);
    reveal(u_edges);
    reveal(u_centers_corners);
    reveal(u2_edges);
    reveal(u2_centers_corners);
    reveal(up_edges);
    reveal(up_centers_corners);
    reveal(ur_edges);
    reveal(ur_centers_corners);
    reveal(urp_edges);
    reveal(urp_centers_corners);
    reveal(r_edges);
    reveal(r_centers_corners);
    reveal(r2_edges);
    reveal(r2_centers_corners);
    lemma_sizes();
    lemma_decode_of_encode(s);
    let e = of_edges(s.edge_coord());
    let c = of_centers_corners(s.center_corner_coord());
    assert(e.edges == s.edges);
    assert(c.centers == s.centers && c.corners == s.corners);
}

} // verus!
