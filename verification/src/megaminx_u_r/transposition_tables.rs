//! The tables of the turns over the corner and the edge coordinate: U and R
//! by one fifth and by three, and U followed by R.

use vstd::prelude::*;
use crate::megaminx_u_r::minx::{
    lemma_decode_of_encode, lemma_sizes, Megaminx, MinxState, CORNERS_SIZE, EP_SIZE,
};
use crate::table::{tabulates, tabulates_upto};

verus! {

#[derive(Debug, PartialEq)]
pub struct TranspositionTables {
    pub u_corners: Vec<u32>,
    pub u_edges: Vec<u32>,
    pub u2p_corners: Vec<u32>,
    pub u2p_edges: Vec<u32>,
    pub r_corners: Vec<u32>,
    pub r_edges: Vec<u32>,
    pub r2p_corners: Vec<u32>,
    pub r2p_edges: Vec<u32>,
    pub ur_corners: Vec<u32>,
    pub ur_edges: Vec<u32>,
}

/// The puzzle whose corners have the coordinate `coord`.
pub open spec fn of_corners(coord: nat) -> MinxState {
    MinxState::solved().with_corners_coord(coord)
}

/// The puzzle whose edges have the coordinate `coord`.
pub open spec fn of_edges(coord: nat) -> MinxState {
    MinxState::solved().with_ep_coord(coord)
}

/// The corner coordinate after U.
#[verifier::opaque]
pub open spec fn u_corners(coord: nat) -> nat {
    of_corners(coord).u().corners_coord()
}

/// The corner coordinate after three times U.
#[verifier::opaque]
pub open spec fn u2p_corners(coord: nat) -> nat {
    of_corners(coord).u().u().u().corners_coord()
}

/// The corner coordinate after R.
#[verifier::opaque]
pub open spec fn r_corners(coord: nat) -> nat {
    of_corners(coord).r().corners_coord()
}

/// The corner coordinate after three times R.
#[verifier::opaque]
pub open spec fn r2p_corners(coord: nat) -> nat {
    of_corners(coord).r().r().r().corners_coord()
}

/// The corner coordinate after U and then R.
#[verifier::opaque]
pub open spec fn ur_corners(coord: nat) -> nat {
    of_corners(coord).u().r().corners_coord()
}

/// The edge coordinate after U.
#[verifier::opaque]
pub open spec fn u_edges(coord: nat) -> nat {
    of_edges(coord).u().ep_coord()
}

/// The edge coordinate after three times U.
#[verifier::opaque]
pub open spec fn u2p_edges(coord: nat) -> nat {
    of_edges(coord).u().u().u().ep_coord()
}

/// The edge coordinate after R.
#[verifier::opaque]
pub open spec fn r_edges(coord: nat) -> nat {
    of_edges(coord).r().ep_coord()
}

/// The edge coordinate after three times R.
#[verifier::opaque]
pub open spec fn r2p_edges(coord: nat) -> nat {
    of_edges(coord).r().r().r().ep_coord()
}

/// The edge coordinate after U and then R.
#[verifier::opaque]
pub open spec fn ur_edges(coord: nat) -> nat {
    of_edges(coord).u().r().ep_coord()
}

impl TranspositionTables {
    /// Each table holds, for every coordinate, the coordinate after its
    /// turns.
    pub open spec fn wf(&self) -> bool {
        &&& tabulates(self.u_corners@, CORNERS_SIZE as nat, |c: nat| u_corners(c))
        &&& tabulates(self.u2p_corners@, CORNERS_SIZE as nat, |c: nat| u2p_corners(c))
        &&& tabulates(self.r_corners@, CORNERS_SIZE as nat, |c: nat| r_corners(c))
        &&& tabulates(self.r2p_corners@, CORNERS_SIZE as nat, |c: nat| r2p_corners(c))
        &&& tabulates(self.ur_corners@, CORNERS_SIZE as nat, |c: nat| ur_corners(c))
        &&& tabulates(self.u_edges@, EP_SIZE as nat, |c: nat| u_edges(c))
        &&& tabulates(self.u2p_edges@, EP_SIZE as nat, |c: nat| u2p_edges(c))
        &&& tabulates(self.r_edges@, EP_SIZE as nat, |c: nat| r_edges(c))
        &&& tabulates(self.r2p_edges@, EP_SIZE as nat, |c: nat| r2p_edges(c))
        &&& tabulates(self.ur_edges@, EP_SIZE as nat, |c: nat| ur_edges(c))
    }

    /// Builds the ten tables: for every coordinate the puzzle is set up
    /// once, and each table's turns are made on a copy of it.
    pub fn new() -> (tables: Self)
        ensures
            tables.wf(),
    {
        let mut u_corners_table: Vec<u32> = Vec::with_capacity(CORNERS_SIZE);
        let mut u2p_corners_table: Vec<u32> = Vec::with_capacity(CORNERS_SIZE);
        let mut r_corners_table: Vec<u32> = Vec::with_capacity(CORNERS_SIZE);
        let mut r2p_corners_table: Vec<u32> = Vec::with_capacity(CORNERS_SIZE);
        let mut ur_corners_table: Vec<u32> = Vec::with_capacity(CORNERS_SIZE);
        let mut u_edges_table: Vec<u32> = Vec::with_capacity(EP_SIZE);
        let mut u2p_edges_table: Vec<u32> = Vec::with_capacity(EP_SIZE);
        let mut r_edges_table: Vec<u32> = Vec::with_capacity(EP_SIZE);
        let mut r2p_edges_table: Vec<u32> = Vec::with_capacity(EP_SIZE);
        let mut ur_edges_table: Vec<u32> = Vec::with_capacity(EP_SIZE);

        let mut i: u32 = 0;
        while i < CORNERS_SIZE as u32
            invariant
                i <= CORNERS_SIZE,
                tabulates_upto(u_corners_table@, i as nat, CORNERS_SIZE as nat, |c: nat| u_corners(c)),
                tabulates_upto(
                    u2p_corners_table@,
                    i as nat,
                    CORNERS_SIZE as nat,
                    |c: nat| u2p_corners(c),
                ),
                tabulates_upto(r_corners_table@, i as nat, CORNERS_SIZE as nat, |c: nat| r_corners(c)),
                tabulates_upto(
                    r2p_corners_table@,
                    i as nat,
                    CORNERS_SIZE as nat,
                    |c: nat| r2p_corners(c),
                ),
                tabulates_upto(ur_corners_table@, i as nat, CORNERS_SIZE as nat, |c: nat| ur_corners(c)),
            decreases CORNERS_SIZE - i,
        {
            proof {
                reveal(u_corners);
                reveal(u2p_corners);
                reveal(r_corners);
                reveal(r2p_corners);
                reveal(ur_corners);
            }
            let mut start = Megaminx::new();
            start.set_corners_coord(i);
            let mut minx = start;
            minx.u();
            u_corners_table.push(minx.corners_coord());
            minx.r();
            ur_corners_table.push(minx.corners_coord());
            let mut minx = start;
            minx.u();
            minx.u();
            minx.u();
            u2p_corners_table.push(minx.corners_coord());
            let mut minx = start;
            minx.r();
            r_corners_table.push(minx.corners_coord());
            minx.r();
            minx.r();
            r2p_corners_table.push(minx.corners_coord());
            i = i + 1;
        }

        let mut i: u32 = 0;
        while i < EP_SIZE as u32
            invariant
                i <= EP_SIZE,
                tabulates_upto(u_edges_table@, i as nat, EP_SIZE as nat, |c: nat| u_edges(c)),
                tabulates_upto(u2p_edges_table@, i as nat, EP_SIZE as nat, |c: nat| u2p_edges(c)),
                tabulates_upto(r_edges_table@, i as nat, EP_SIZE as nat, |c: nat| r_edges(c)),
                tabulates_upto(r2p_edges_table@, i as nat, EP_SIZE as nat, |c: nat| r2p_edges(c)),
                tabulates_upto(ur_edges_table@, i as nat, EP_SIZE as nat, |c: nat| ur_edges(c)),
            decreases EP_SIZE - i,
        {
            proof {
                reveal(u_edges);
                reveal(u2p_edges);
                reveal(r_edges);
                reveal(r2p_edges);
                reveal(ur_edges);
            }
            let mut start = Megaminx::new();
            start.set_ep_coord(i);
            let mut minx = start;
            minx.u();
            u_edges_table.push(minx.ep_coord());
            minx.r();
            ur_edges_table.push(minx.ep_coord());
            let mut minx = start;
            minx.u();
            minx.u();
            minx.u();
            u2p_edges_table.push(minx.ep_coord());
            let mut minx = start;
            minx.r();
            r_edges_table.push(minx.ep_coord());
            minx.r();
            minx.r();
            r2p_edges_table.push(minx.ep_coord());
            i = i + 1;
        }

        Self {
            u_corners: u_corners_table,
            u_edges: u_edges_table,
            u2p_corners: u2p_corners_table,
            u2p_edges: u2p_edges_table,
            r_corners: r_corners_table,
            r_edges: r_edges_table,
            r2p_corners: r2p_corners_table,
            r2p_edges: r2p_edges_table,
            ur_corners: ur_corners_table,
            ur_edges: ur_edges_table,
        }
    }
}

/// The tables follow the puzzle: looking turns up at the coordinates of a
/// well-formed, even puzzle gives the coordinates of the puzzle after the
/// turns.
pub proof fn lemma_tables_follow(s: MinxState)
    requires
        s.wf(),
        s.is_even(),
    ensures
        s.corners_coord() < CORNERS_SIZE,
        s.ep_coord() < EP_SIZE,
        u_corners(s.corners_coord()) == s.u().corners_coord(),
        u2p_corners(s.corners_coord()) == s.u().u().u().corners_coord(),
        r_corners(s.corners_coord()) == s.r().corners_coord(),
        r2p_corners(s.corners_coord()) == s.r().r().r().corners_coord(),
        ur_corners(s.corners_coord()) == s.u().r().corners_coord(),
        u_edges(s.ep_coord()) == s.u().ep_coord(),
        u2p_edges(s.ep_coord()) == s.u().u().u().ep_coord(),
        r_edges(s.ep_coord()) == s.r().ep_coord(),
        r2p_edges(s.ep_coord()) == s.r().r().r().ep_coord(),
        ur_edges(s.ep_coord()) == s.u().r().ep_coord(),
{
    reveal(u_corners);
    reveal(u2p_corners);
    reveal(r_corners);
    reveal(r2p_corners);
    reveal(ur_corners);
    reveal(u_edges);
    reveal(u2p_edges);
    reveal(r_edges);
    reveal(r2p_edges);
    reveal(ur_edges);
    reveal(MinxState::u);
    reveal(MinxState::r);
    lemma_sizes();
    lemma_decode_of_encode(s);
    let c = of_corners(s.corners_coord());
    let e = of_edges(s.ep_coord());
    assert(c.cp == s.cp && c.co == s.co);
    assert(e.ep == s.ep);
}

} // verus!
