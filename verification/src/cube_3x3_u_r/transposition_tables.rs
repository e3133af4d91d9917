//! The tables of the moves over the permutation and the orientation
//! coordinate.

use vstd::prelude::*;
use crate::cube_3x3_u_r::cube::{
    lemma_decode_of_encode, lemma_sizes, Cube, CubeState, ORI_SIZE, PERM_SIZE,
};
use crate::table::{tabulates, tabulates_upto};

verus! {

pub struct TranspositionTables {
    pub u_perm: Vec<u32>,
    pub u_ori: Vec<u32>,
    pub u2_perm: Vec<u32>,
    pub u2_ori: Vec<u32>,
    pub ur_perm: Vec<u32>,
    pub ur_ori: Vec<u32>,
    pub r_perm: Vec<u32>,
    pub r_ori: Vec<u32>,
    pub r2_perm: Vec<u32>,
    pub r2_ori: Vec<u32>,
    pub rw_perm: Vec<u32>,
    pub rw_ori: Vec<u32>,
    pub rw2_perm: Vec<u32>,
    pub rw2_ori: Vec<u32>,
    pub m_perm: Vec<u32>,
    pub m_ori: Vec<u32>,
}

/// The cube whose permutations and centres have the coordinate `coord`.
pub open spec fn of_perm(coord: nat) -> CubeState {
    CubeState::solved().with_perm_coord(coord)
}

/// The cube whose orientations have the coordinate `coord`.
pub open spec fn of_ori(coord: nat) -> CubeState {
    CubeState::solved().with_ori_coord(coord)
}

/// The permutation coordinate after U.
#[verifier::opaque]
pub open spec fn u_perm(coord: nat) -> nat {
    of_perm(coord).u().perm_coord()
}

/// The orientation coordinate after U.
#[verifier::opaque]
pub open spec fn u_ori(coord: nat) -> nat {
    of_ori(coord).u().ori_coord()
}

/// The permutation coordinate after U twice.
#[verifier::opaque]
pub open spec fn u2_perm(coord: nat) -> nat {
    of_perm(coord).u2().perm_coord()
}

/// The orientation coordinate after U twice.
#[verifier::opaque]
pub open spec fn u2_ori(coord: nat) -> nat {
    of_ori(coord).u2().ori_coord()
}

/// The permutation coordinate after U and then R.
#[verifier::opaque]
pub open spec fn ur_perm(coord: nat) -> nat {
    of_perm(coord).u().r().perm_coord()
}

/// The orientation coordinate after U and then R.
#[verifier::opaque]
pub open spec fn ur_ori(coord: nat) -> nat {
    of_ori(coord).u().r().ori_coord()
}

/// The permutation coordinate after R.
#[verifier::opaque]
pub open spec fn r_perm(coord: nat) -> nat {
    of_perm(coord).r().perm_coord()
}

/// The orientation coordinate after R.
#[verifier::opaque]
pub open spec fn r_ori(coord: nat) -> nat {
    of_ori(coord).r().ori_coord()
}

/// The permutation coordinate after R twice.
#[verifier::opaque]
pub open spec fn r2_perm(coord: nat) -> nat {
    of_perm(coord).r2().perm_coord()
}

/// The orientation coordinate after R twice.
#[verifier::opaque]
pub open spec fn r2_ori(coord: nat) -> nat {
    of_ori(coord).r2().ori_coord()
}

/// The permutation coordinate after r.
#[verifier::opaque]
pub open spec fn rw_perm(coord: nat) -> nat {
    of_perm(coord).rw().perm_coord()
}

/// The orientation coordinate after r.
#[verifier::opaque]
pub open spec fn rw_ori(coord: nat) -> nat {
    of_ori(coord).rw().ori_coord()
}

/// The permutation coordinate after r twice.
#[verifier::opaque]
pub open spec fn rw2_perm(coord: nat) -> nat {
    of_perm(coord).rw2().perm_coord()
}

/// The orientation coordinate after r twice.
#[verifier::opaque]
pub open spec fn rw2_ori(coord: nat) -> nat {
    of_ori(coord).rw2().ori_coord()
}

/// The permutation coordinate after M.
#[verifier::opaque]
pub open spec fn m_perm(coord: nat) -> nat {
    of_perm(coord).m().perm_coord()
}

/// The orientation coordinate after M.
#[verifier::opaque]
pub open spec fn m_ori(coord: nat) -> nat {
    of_ori(coord).m().ori_coord()
}

impl TranspositionTables {
    /// Each table holds, for every coordinate, the coordinate after its
    /// moves.
    pub open spec fn wf(&self) -> bool {
        &&& tabulates(self.u_perm@, PERM_SIZE as nat, |c: nat| u_perm(c))
        &&& tabulates(self.u_ori@, ORI_SIZE as nat, |c: nat| u_ori(c))
        &&& tabulates(self.u2_perm@, PERM_SIZE as nat, |c: nat| u2_perm(c))
        &&& tabulates(self.u2_ori@, ORI_SIZE as nat, |c: nat| u2_ori(c))
        &&& tabulates(self.ur_perm@, PERM_SIZE as nat, |c: nat| ur_perm(c))
        &&& tabulates(self.ur_ori@, ORI_SIZE as nat, |c: nat| ur_ori(c))
        &&& tabulates(self.r_perm@, PERM_SIZE as nat, |c: nat| r_perm(c))
        &&& tabulates(self.r_ori@, ORI_SIZE as nat, |c: nat| r_ori(c))
        &&& tabulates(self.r2_perm@, PERM_SIZE as nat, |c: nat| r2_perm(c))
        &&& tabulates(self.r2_ori@, ORI_SIZE as nat, |c: nat| r2_ori(c))
        &&& tabulates(self.rw_perm@, PERM_SIZE as nat, |c: nat| rw_perm(c))
        &&& tabulates(self.rw_ori@, ORI_SIZE as nat, |c: nat| rw_ori(c))
        &&& tabulates(self.rw2_perm@, PERM_SIZE as nat, |c: nat| rw2_perm(c))
        &&& tabulates(self.rw2_ori@, ORI_SIZE as nat, |c: nat| rw2_ori(c))
        &&& tabulates(self.m_perm@, PERM_SIZE as nat, |c: nat| m_perm(c))
        &&& tabulates(self.m_ori@, ORI_SIZE as nat, |c: nat| m_ori(c))
    }

    /// Builds the sixteen tables: for every coordinate the cube is set up
    /// once, and each table's moves are made on a copy of it.
    pub fn new() -> (tables: Self)
        ensures
            tables.wf(),
    {
        let mut u_perm_table: Vec<u32> = Vec::with_capacity(PERM_SIZE as usize);
        let mut u2_perm_table: Vec<u32> = Vec::with_capacity(PERM_SIZE as usize);
        let mut ur_perm_table: Vec<u32> = Vec::with_capacity(PERM_SIZE as usize);
        let mut r_perm_table: Vec<u32> = Vec::with_capacity(PERM_SIZE as usize);
        let mut r2_perm_table: Vec<u32> = Vec::with_capacity(PERM_SIZE as usize);
        let mut rw_perm_table: Vec<u32> = Vec::with_capacity(PERM_SIZE as usize);
        let mut rw2_perm_table: Vec<u32> = Vec::with_capacity(PERM_SIZE as usize);
        let mut m_perm_table: Vec<u32> = Vec::with_capacity(PERM_SIZE as usize);
        let mut u_ori_table: Vec<u32> = Vec::with_capacity(ORI_SIZE as usize);
        let mut u2_ori_table: Vec<u32> = Vec::with_capacity(ORI_SIZE as usize);
        let mut ur_ori_table: Vec<u32> = Vec::with_capacity(ORI_SIZE as usize);
        let mut r_ori_table: Vec<u32> = Vec::with_capacity(ORI_SIZE as usize);
        let mut r2_ori_table: Vec<u32> = Vec::with_capacity(ORI_SIZE as usize);
        let mut rw_ori_table: Vec<u32> = Vec::with_capacity(ORI_SIZE as usize);
        let mut rw2_ori_table: Vec<u32> = Vec::with_capacity(ORI_SIZE as usize);
        let mut m_ori_table: Vec<u32> = Vec::with_capacity(ORI_SIZE as usize);

        let mut i: u32 = 0;
        while i < PERM_SIZE
            invariant
                i <= PERM_SIZE,
                tabulates_upto(u_perm_table@, i as nat, PERM_SIZE as nat, |c: nat| u_perm(c)),
                tabulates_upto(u2_perm_table@, i as nat, PERM_SIZE as nat, |c: nat| u2_perm(c)),
                tabulates_upto(ur_perm_table@, i as nat, PERM_SIZE as nat, |c: nat| ur_perm(c)),
                tabulates_upto(r_perm_table@, i as nat, PERM_SIZE as nat, |c: nat| r_perm(c)),
                tabulates_upto(r2_perm_table@, i as nat, PERM_SIZE as nat, |c: nat| r2_perm(c)),
                tabulates_upto(rw_perm_table@, i as nat, PERM_SIZE as nat, |c: nat| rw_perm(c)),
                tabulates_upto(rw2_perm_table@, i as nat, PERM_SIZE as nat, |c: nat| rw2_perm(c)),
                tabulates_upto(m_perm_table@, i as nat, PERM_SIZE as nat, |c: nat| m_perm(c)),
            decreases PERM_SIZE - i,
        {
            proof {
                reveal(u_perm);
                reveal(u2_perm);
                reveal(ur_perm);
                reveal(r_perm);
                reveal(r2_perm);
                reveal(rw_perm);
                reveal(rw2_perm);
                reveal(m_perm);
            }
            let mut start = Cube::new();
            start.set_perm_coord(i);
            let mut cube = start;
            cube.u();
            u_perm_table.push(cube.perm_coord());
            let mut after_u = cube;
            cube.u();
            u2_perm_table.push(cube.perm_coord());
            after_u.r();
            ur_perm_table.push(after_u.perm_coord());
            let mut cube = start;
            cube.r();
            r_perm_table.push(cube.perm_coord());
            cube.r();
            r2_perm_table.push(cube.perm_coord());
            let mut cube = start;
            cube.rw();
            rw_perm_table.push(cube.perm_coord());
            let mut cube = start;
            cube.rw2();
            rw2_perm_table.push(cube.perm_coord());
            let mut cube = start;
            cube.m();
            m_perm_table.push(cube.perm_coord());
            i = i + 1;
        }

        let mut i: u32 = 0;
        while i < ORI_SIZE
            invariant
                i <= ORI_SIZE,
                tabulates_upto(u_ori_table@, i as nat, ORI_SIZE as nat, |c: nat| u_ori(c)),
                tabulates_upto(u2_ori_table@, i as nat, ORI_SIZE as nat, |c: nat| u2_ori(c)),
                tabulates_upto(ur_ori_table@, i as nat, ORI_SIZE as nat, |c: nat| ur_ori(c)),
                tabulates_upto(r_ori_table@, i as nat, ORI_SIZE as nat, |c: nat| r_ori(c)),
                tabulates_upto(r2_ori_table@, i as nat, ORI_SIZE as nat, |c: nat| r2_ori(c)),
                tabulates_upto(rw_ori_table@, i as nat, ORI_SIZE as nat, |c: nat| rw_ori(c)),
                tabulates_upto(rw2_ori_table@, i as nat, ORI_SIZE as nat, |c: nat| rw2_ori(c)),
                tabulates_upto(m_ori_table@, i as nat, ORI_SIZE as nat, |c: nat| m_ori(c)),
            decreases ORI_SIZE - i,
        {
            proof {
                reveal(u_ori);
                reveal(u2_ori);
                reveal(ur_ori);
                reveal(r_ori);
                reveal(r2_ori);
                reveal(rw_ori);
                reveal(rw2_ori);
                reveal(m_ori);
            }
            let mut start = Cube::new();
            start.set_ori_coord(i);
            let mut cube = start;
            cube.u();
            u_ori_table.push(cube.ori_coord());
            let mut after_u = cube;
            cube.u();
            u2_ori_table.push(cube.ori_coord());
            after_u.r();
            ur_ori_table.push(after_u.ori_coord());
            let mut cube = start;
            cube.r();
            r_ori_table.push(cube.ori_coord());
            cube.r();
            r2_ori_table.push(cube.ori_coord());
            let mut cube = start;
            cube.rw();
            rw_ori_table.push(cube.ori_coord());
            let mut cube = start;
            cube.rw2();
            rw2_ori_table.push(cube.ori_coord());
            let mut cube = start;
            cube.m();
            m_ori_table.push(cube.ori_coord());
            i = i + 1;
        }

        Self {
            u_perm: u_perm_table,
            u_ori: u_ori_table,
            u2_perm: u2_perm_table,
            u2_ori: u2_ori_table,
            ur_perm: ur_perm_table,
            ur_ori: ur_ori_table,
            r_perm: r_perm_table,
            r_ori: r_ori_table,
            r2_perm: r2_perm_table,
            r2_ori: r2_ori_table,
            rw_perm: rw_perm_table,
            rw_ori: rw_ori_table,
            rw2_perm: rw2_perm_table,
            rw2_ori: rw2_ori_table,
            m_perm: m_perm_table,
            m_ori: m_ori_table,
        }
    }
}

/// The tables follow the cube: looking a move up at the coordinates of a
/// well-formed cube, whose centres agree with its permutations and whose
/// corners are arranged as the turns can arrange them, gives the
/// coordinates of the cube after the move.
pub proof fn lemma_tables_follow(s: CubeState)
    requires
        s.wf(),
        s.consistent(),
        s.corners_in_group(),
    ensures
        s.perm_coord() < PERM_SIZE,
        s.ori_coord() < ORI_SIZE,
        u_perm(s.perm_coord()) == s.u().perm_coord(),
        u_ori(s.ori_coord()) == s.u().ori_coord(),
        u2_perm(s.perm_coord()) == s.u2().perm_coord(),
        u2_ori(s.ori_coord()) == s.u2().ori_coord(),
        ur_perm(s.perm_coord()) == s.u().r().perm_coord(),
        ur_ori(s.ori_coord()) == s.u().r().ori_coord(),
        r_perm(s.perm_coord()) == s.r().perm_coord(),
        r_ori(s.ori_coord()) == s.r().ori_coord(),
        r2_perm(s.perm_coord()) == s.r2().perm_coord(),
        r2_ori(s.ori_coord()) == s.r2().ori_coord(),
        rw_perm(s.perm_coord()) == s.rw().perm_coord(),
        rw_ori(s.ori_coord()) == s.rw().ori_coord(),
        rw2_perm(s.perm_coord()) == s.rw2().perm_coord(),
        rw2_ori(s.ori_coord()) == s.rw2().ori_coord(),
        m_perm(s.perm_coord()) == s.m().perm_coord(),
        m_ori(s.ori_coord()) == s.m().ori_coord(),
{
    reveal(CubeState::u);
    reveal(CubeState::r);
    reveal(CubeState::m);
    reveal(u_perm);
    reveal(u_ori);
    reveal(u2_perm);
    reveal(u2_ori);
    reveal(ur_perm);
    reveal(ur_ori);
    reveal(r_perm);
    reveal(r_ori);
    reveal(r2_perm);
    reveal(r2_ori);
    reveal(rw_perm);
    reveal(rw_ori);
    reveal(rw2_perm);
    reveal(rw2_ori);
    reveal(m_perm);
    reveal(m_ori);
    lemma_sizes();
    lemma_decode_of_encode(s);
    let p = of_perm(s.perm_coord());
    let o = of_ori(s.ori_coord());
    assert(p.cp == s.cp && p.ep == s.ep && p.centers == s.centers);
    assert(o.co == s.co && o.eo == s.eo);
}

} // verus!
