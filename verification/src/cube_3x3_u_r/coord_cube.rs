//! The cube as its two coordinates, moved by table lookups.

use vstd::prelude::*;
use vstd::string::StringSliceAdditionalSpecFns;
use crate::cube_3x3_u_r::cube::{
    lemma_sizes, parse_turn, turn_named, Cube, CubeState, Turn, ORI_SIZE, PERM_SIZE, STATE_SIZE,
};
use crate::cube_3x3_u_r::transposition_tables::{
    r_ori, r_perm, rw_ori, rw_perm, u_ori, u_perm, TranspositionTables,
};
use crate::notation::InvalidMove;
use crate::table::lookup;

verus! {

#[derive(Clone)]
pub struct CoordCube<'a> {
    pub perm: u32,
    pub ori: u32,
    pub transposition_tables: &'a TranspositionTables,
}

/// A permutation and an orientation coordinate.
pub struct Coords {
    pub perm: nat,
    pub ori: nat,
}

impl Coords {
    /// The coordinates that make up a state number.
    pub open spec fn of(state: nat) -> Coords {
        Coords { perm: state / ORI_SIZE as nat, ori: state % ORI_SIZE as nat }
    }

    /// The coordinates of a cube.
    pub open spec fn of_state(s: CubeState) -> Coords {
        Coords { perm: s.perm_coord(), ori: s.ori_coord() }
    }

    /// The state number: permutation and orientation, the permutation in
    /// the higher place.
    pub open spec fn encode(self) -> nat {
        self.perm * ORI_SIZE as nat + self.ori
    }

    /// Both coordinates are below their sizes.
    pub open spec fn in_range(self) -> bool {
        self.perm < PERM_SIZE && self.ori < ORI_SIZE
    }

    /// The coordinates after a quarter turn of the upper face.
    pub open spec fn u(self) -> Coords {
        Coords { perm: u_perm(self.perm), ori: u_ori(self.ori) }
    }

    /// The coordinates after a half turn of the upper face.
    pub open spec fn u2(self) -> Coords {
        self.u().u()
    }

    /// The coordinates after a quarter turn of the upper face the other way.
    pub open spec fn u_inv(self) -> Coords {
        self.u().u().u()
    }

    /// The coordinates after a quarter turn of the right face.
    pub open spec fn r(self) -> Coords {
        Coords { perm: r_perm(self.perm), ori: r_ori(self.ori) }
    }

    /// The coordinates after a quarter turn of the right face together with the middle layer.
    pub open spec fn rw(self) -> Coords {
        Coords { perm: rw_perm(self.perm), ori: rw_ori(self.ori) }
    }

    /// The coordinates after a half turn of the right face together with the middle layer.
    pub open spec fn rw2(self) -> Coords {
        self.rw().rw()
    }

    /// The coordinates after a quarter turn of the right face together with
    /// the middle layer, the other way.
    pub open spec fn rw_inv(self) -> Coords {
        self.rw().rw().rw()
    }

    /// The coordinates after a move that the coordinates can make: U or r,
    /// by any number of quarters. The other moves leave them as they are.
    pub open spec fn turned(self, turn: Turn) -> Coords {
        match turn {
            Turn::U => self.u(),
            Turn::U2 => self.u2(),
            Turn::UInv => self.u_inv(),
            Turn::Rw => self.rw(),
            Turn::Rw2 => self.rw2(),
            Turn::RwInv => self.rw_inv(),
            _ => self,
        }
    }
}

/// Whether the coordinates can make a move: U and r, by any number of
/// quarters.
pub open spec fn can_turn(turn: Turn) -> bool {
    turn is U || turn is U2 || turn is UInv || turn is Rw || turn is Rw2 || turn is RwInv
}

impl<'a> View for CoordCube<'a> {
    type V = Coords;

    open spec fn view(&self) -> Coords {
        Coords { perm: self.perm as nat, ori: self.ori as nat }
    }
}

impl<'a> CoordCube<'a> {
    /// The coordinates are in range and the tables are what they claim to
    /// be.
    pub open spec fn wf(&self) -> bool {
        &&& self@.in_range()
        &&& self.transposition_tables.wf()
    }

    /// The solved cube over the given tables.
    pub fn new(transposition_tables: &'a TranspositionTables) -> (cube: Self)
        requires
            transposition_tables.wf(),
        ensures
            cube.wf(),
            cube@ == Coords::of_state(CubeState::solved()),
            cube.transposition_tables == transposition_tables,
    {
        let cube = Cube::new();
        Self { perm: cube.perm_coord(), ori: cube.ori_coord(), transposition_tables }
    }

    /// A quarter turn of the upper face, looked up in the tables.
    pub fn u(&mut self)
        requires
            old(self).wf(),
        ensures
            final(self).wf(),
            final(self)@ == old(self)@.u(),
            final(self).transposition_tables == old(self).transposition_tables,
    {
        self.perm = lookup(&self.transposition_tables.u_perm, self.perm);
        self.ori = lookup(&self.transposition_tables.u_ori, self.ori);
    }

    /// A half turn of the upper face, looked up in the tables.
    pub fn u2(&mut self)
        requires
            old(self).wf(),
        ensures
            final(self).wf(),
            final(self)@ == old(self)@.u2(),
            final(self).transposition_tables == old(self).transposition_tables,
    {
        self.u();
        self.u();
    }

    /// A quarter turn of the upper face the other way, looked up in the tables.
    pub fn u_inv(&mut self)
        requires
            old(self).wf(),
        ensures
            final(self).wf(),
            final(self)@ == old(self)@.u_inv(),
            final(self).transposition_tables == old(self).transposition_tables,
    {
        self.u();
        self.u();
        self.u();
    }

    /// A quarter turn of the right face, looked up in the tables.
    pub fn r(&mut self)
        requires
            old(self).wf(),
        ensures
            final(self).wf(),
            final(self)@ == old(self)@.r(),
            final(self).transposition_tables == old(self).transposition_tables,
    {
        self.perm = lookup(&self.transposition_tables.r_perm, self.perm);
        self.ori = lookup(&self.transposition_tables.r_ori, self.ori);
    }

    /// A quarter turn of the right face together with the middle layer, looked up in the tables.
    pub fn rw(&mut self)
        requires
            old(self).wf(),
        ensures
            final(self).wf(),
            final(self)@ == old(self)@.rw(),
            final(self).transposition_tables == old(self).transposition_tables,
    {
        self.perm = lookup(&self.transposition_tables.rw_perm, self.perm);
        self.ori = lookup(&self.transposition_tables.rw_ori, self.ori);
    }

    /// A half turn of the right face together with the middle layer, looked up in the tables.
    pub fn rw2(&mut self)
        requires
            old(self).wf(),
        ensures
            final(self).wf(),
            final(self)@ == old(self)@.rw2(),
            final(self).transposition_tables == old(self).transposition_tables,
    {
        self.rw();
        self.rw();
    }

    /// A quarter turn of the right face together with the middle layer, the
    /// other way, looked up in the tables.
    pub fn rw_inv(&mut self)
        requires
            old(self).wf(),
        ensures
            final(self).wf(),
            final(self)@ == old(self)@.rw_inv(),
            final(self).transposition_tables == old(self).transposition_tables,
    {
        self.rw();
        self.rw();
        self.rw();
    }

    /// Does the move named `U`, `U2`, `U'`, `r`, `r2` or `r'`. Any other
    /// name is refused and leaves the cube as it is.
    pub fn do_move(&mut self, mv: &str) -> (done: Result<(), InvalidMove>)
        requires
            old(self).wf(),
        ensures
            final(self).wf(),
            final(self).transposition_tables == old(self).transposition_tables,
            match turn_named(mv.spec_bytes()) {
                Some(turn) => final(self)@ == old(self)@.turned(turn) && (done is Ok <==> can_turn(
                    turn,
                )),
                None => done is Err && final(self)@ == old(self)@,
            },
    {
        match parse_turn(mv.as_bytes()) {
            Some(Turn::U) => {
                self.u();
                Ok(())
            },
            Some(Turn::U2) => {
                self.u2();
                Ok(())
            },
            Some(Turn::UInv) => {
                self.u_inv();
                Ok(())
            },
            Some(Turn::Rw) => {
                self.rw();
                Ok(())
            },
            Some(Turn::Rw2) => {
                self.rw2();
                Ok(())
            },
            Some(Turn::RwInv) => {
                self.rw_inv();
                Ok(())
            },
            _ => Err(InvalidMove),
        }
    }

    /// The state number.
    pub fn encode(&self) -> (state: u64)
        requires
            self@.in_range(),
        ensures
            state == self@.encode(),
            state < STATE_SIZE,
    {
        proof {
            lemma_sizes();
        }
        self.perm as u64 * 62208 + self.ori as u64
    }

    /// Takes the cube to the state with the given number.
    pub fn decode(&mut self, coord: u64)
        requires
            coord < STATE_SIZE,
        ensures
            final(self)@ == Coords::of(coord as nat),
            final(self)@.in_range(),
            final(self)@.encode() == coord,
            final(self).transposition_tables == old(self).transposition_tables,
    {
        proof {
            lemma_sizes();
        }
        self.perm = (coord / 62208) as u32;
        self.ori = (coord % 62208) as u32;
    }
}

} // verus!
