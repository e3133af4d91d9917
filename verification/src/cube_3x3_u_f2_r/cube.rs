//! The cube as piece vectors, its moves, and its coordinates.
//!
//! The turns U and R are odd permutations of the edges and of the corners
//! alike, and F2 is even on both, so the edges and the corners always have
//! the same sign. The edge coordinate leaves the sign out; decoding puts it
//! back from the corners, which therefore have to be decoded first.

use vstd::prelude::*;
use crate::cube_3x3_u_f2_r::coord_cube::CoordCube;
use crate::cycle::{
    cycle4, cycled4, lemma_cycled4, lemma_cycled4_order, lemma_cycled4_sign, lemma_swapped,
    lemma_swapped_sign, lemma_twisted4_order, swap, swapped, twist4, twisted4,
};
use crate::factorial::lemma_fact_values;
use crate::orientation::{
    decode_orientation, encode_orientation, is_orientation, lemma_ori_unrank_of_rank, lemma_zeros,
    ori_rank, ori_unrank, power,
};
use crate::parity::{
    decode_even_permutation, encode_even_permutation, even, even_rank, even_unrank, is_even,
    lemma_even_unrank_of_rank, lemma_swap_last_two, lemma_swap_last_two_permutation,
    lemma_swap_last_two_twice, swap_last_two,
};
use crate::permutation::{
    decode_permutation, encode_permutation, identity, identity_perm, is_permutation, lehmer_rank,
    lehmer_unrank, lemma_identity_perm, lemma_unrank_of_rank,
};

verus! {

/// The number of edge coordinates, `9! / 2`.
pub const EP_SIZE: u32 = 181440;

/// The number of corner permutations, `7!`.
pub const CP_SIZE: u32 = 5040;

/// The number of corner orientations, `3^6`.
pub const CO_SIZE: u32 = 729;

pub const CORNERS_SIZE: u32 = 3674160;

pub const STATE_SIZE: u64 = 666639590400;

#[derive(Debug, PartialEq)]
pub struct Cube {
    pub ep: [u8; 9],
    pub cp: [u8; 7],
    pub co: [u8; 7],
    pub is_even_perm: bool,
}

/// What a cube holds, as mathematical sequences.
pub struct CubeState {
    pub ep: Seq<u8>,
    pub cp: Seq<u8>,
    pub co: Seq<u8>,
    pub is_even_perm: bool,
}

impl View for Cube {
    type V = CubeState;

    open spec fn view(&self) -> CubeState {
        CubeState { ep: self.ep@, cp: self.cp@, co: self.co@, is_even_perm: self.is_even_perm }
    }
}

/// The sizes are what their names say.
pub proof fn lemma_sizes()
    ensures
        EP_SIZE == crate::factorial::fact(9) / 2,
        CP_SIZE == crate::factorial::fact(7),
        CO_SIZE == power(3, 6),
        CORNERS_SIZE == CP_SIZE * CO_SIZE,
        STATE_SIZE == EP_SIZE * CORNERS_SIZE,
{
    lemma_fact_values();
    reveal_with_fuel(power, 7);
}

impl CubeState {
    /// The vectors have their lengths, the permutations are permutations
    /// and the corner twists add up to a multiple of 3.
    pub open spec fn wf(self) -> bool {
        &&& self.ep.len() == 9 && is_permutation(self.ep)
        &&& self.cp.len() == 7 && is_permutation(self.cp)
        &&& self.co.len() == 7 && is_orientation(self.co, 3)
    }

    /// The sign on record is the sign of the edges and of the corners.
    pub open spec fn consistent(self) -> bool {
        &&& self.is_even_perm == even(self.ep)
        &&& self.is_even_perm == even(self.cp)
    }

    /// The solved cube.
    pub open spec fn solved() -> CubeState {
        CubeState {
            ep: identity_perm(9),
            cp: identity_perm(7),
            co: Seq::new(7, |i: int| 0u8),
            is_even_perm: true,
        }
    }

    /// The cube after a quarter turn of the upper face.
    pub open spec fn u(self) -> CubeState {
        CubeState {
            ep: cycled4(self.ep, 0, 1, 2, 3),
            cp: cycled4(self.cp, 0, 1, 2, 3),
            co: cycled4(self.co, 0, 1, 2, 3),
            is_even_perm: !self.is_even_perm,
        }
    }

    /// The cube after a quarter turn of the right face.
    pub open spec fn r(self) -> CubeState {
        CubeState {
            ep: cycled4(self.ep, 3, 6, 5, 4),
            cp: cycled4(self.cp, 2, 5, 4, 3),
            co: twisted4(self.co, 2, 5, 4, 3, 1, 2, 1, 2, 3),
            is_even_perm: !self.is_even_perm,
        }
    }

    /// The cube after a half turn of the front face.
    pub open spec fn f2(self) -> CubeState {
        CubeState {
            ep: swapped(swapped(self.ep, 0, 7), 4, 8),
            cp: swapped(swapped(self.cp, 0, 4), 3, 6),
            co: swapped(swapped(self.co, 0, 4), 3, 6),
            is_even_perm: self.is_even_perm,
        }
    }

    /// The edge coordinate: the rank of the edges, without its lowest
    /// digit.
    pub open spec fn ep_coord(self) -> nat {
        even_rank(self.ep)
    }

    /// The coordinate of the places of the corners.
    pub open spec fn cp_coord(self) -> nat {
        lehmer_rank(self.cp)
    }

    /// The coordinate of the orientations of the corners.
    pub open spec fn co_coord(self) -> nat {
        ori_rank(self.co, 3)
    }

    /// The corner coordinate: permutation and orientation, the permutation
    /// in the higher place.
    pub open spec fn corners_coord(self) -> nat {
        self.cp_coord() * CO_SIZE as nat + self.co_coord()
    }

    /// The state number: edges and corners, the edges in the higher place.
    pub open spec fn encode(self) -> nat {
        self.ep_coord() * CORNERS_SIZE as nat + self.corners_coord()
    }

    /// The state with the edges set from a coordinate. The sign on record
    /// decides between the even permutation with that coordinate and the
    /// odd one, which has the last two edges exchanged.
    pub open spec fn with_ep_coord(self, coord: nat) -> CubeState {
        CubeState {
            ep: if self.is_even_perm {
                even_unrank(coord, 9)
            } else {
                swap_last_two(even_unrank(coord, 9))
            },
            ..self
        }
    }

    /// The state with the corners set from a coordinate, and the sign on
    /// record set to the sign of the corner permutation.
    pub open spec fn with_corners_coord(self, coord: nat) -> CubeState {
        let cp = lehmer_unrank(coord / CO_SIZE as nat, 7);
        CubeState {
            cp,
            co: ori_unrank(coord % CO_SIZE as nat, 7, 3),
            is_even_perm: even(cp),
            ..self
        }
    }

    /// The state with number `state`: the corners are set first, because
    /// they tell the sign that the edges need.
    pub open spec fn decode(self, state: nat) -> CubeState {
        self.with_corners_coord(state % CORNERS_SIZE as nat).with_ep_coord(
            state / CORNERS_SIZE as nat,
        )
    }
}

/// The moves keep a well-formed cube well-formed.
pub proof fn lemma_moves_keep_wf(s: CubeState)
    requires
        s.wf(),
    ensures
        s.u().wf(),
        s.r().wf(),
        s.f2().wf(),
{
    lemma_cycled4(s.ep, 0, 1, 2, 3);
    lemma_cycled4(s.cp, 0, 1, 2, 3);
    lemma_cycled4(s.co, 0, 1, 2, 3);
    lemma_cycled4(s.ep, 3, 6, 5, 4);
    lemma_cycled4(s.cp, 2, 5, 4, 3);
    crate::cycle::lemma_twisted4(s.co, 2, 5, 4, 3, 1, 2, 1, 2, 3);
    lemma_swapped(s.ep, 0, 7);
    lemma_swapped(swapped(s.ep, 0, 7), 4, 8);
    lemma_swapped(s.cp, 0, 4);
    lemma_swapped(swapped(s.cp, 0, 4), 3, 6);
    lemma_swapped(s.co, 0, 4);
    lemma_swapped(swapped(s.co, 0, 4), 3, 6);
}

/// The moves keep the sign on record right: U and R change the sign of the
/// edges and of the corners, and F2 keeps both.
pub proof fn lemma_moves_keep_consistent(s: CubeState)
    requires
        s.wf(),
        s.consistent(),
    ensures
        s.u().consistent(),
        s.r().consistent(),
        s.f2().consistent(),
{
    lemma_cycled4_sign(s.ep, 0, 1, 2, 3);
    lemma_cycled4_sign(s.cp, 0, 1, 2, 3);
    lemma_cycled4_sign(s.ep, 3, 6, 5, 4);
    lemma_cycled4_sign(s.cp, 2, 5, 4, 3);
    lemma_swapped_sign(s.ep, 0, 7);
    lemma_swapped_sign(swapped(s.ep, 0, 7), 4, 8);
    lemma_swapped_sign(s.cp, 0, 4);
    lemma_swapped_sign(swapped(s.cp, 0, 4), 3, 6);
}

/// U and R come back after four turns, F2 after two, and none of them
/// before.
pub proof fn lemma_quarter_turns(s: CubeState)
    requires
        s.wf(),
    ensures
        s.u().u().u().u() == s,
        s.r().r().r().r() == s,
        s.f2().f2() == s,
        s.u() != s && s.u().u() != s && s.u().u().u() != s,
        s.r() != s && s.r().r() != s && s.r().r().r() != s,
        s.f2() != s,
{
    assert(s.f2().ep[7] == s.ep[0] && s.ep[0] != s.ep[7]);
    lemma_cycled4_order(s.ep, 0, 1, 2, 3);
    lemma_cycled4_order(s.cp, 0, 1, 2, 3);
    lemma_cycled4_order(s.co, 0, 1, 2, 3);
    lemma_cycled4_order(s.ep, 3, 6, 5, 4);
    lemma_cycled4_order(s.cp, 2, 5, 4, 3);
    lemma_twisted4_order(s.co, 2, 5, 4, 3, 1, 2, 1, 2, 3);
    assert(s.f2().f2().ep =~= s.ep);
    assert(s.f2().f2().cp =~= s.cp);
    assert(s.f2().f2().co =~= s.co);
}

/// Decoding a state number and encoding the result gives the number back.
pub proof fn lemma_encode_of_decode(s: CubeState, state: nat)
    requires
        state < STATE_SIZE,
    ensures
        s.decode(state).encode() == state,
        s.ep.len() == 9 ==> s.decode(state).wf(),
        s.decode(state).is_even_perm == even(s.decode(state).cp),
        s.ep.len() == 9 ==> s.decode(state).is_even_perm == even(s.decode(state).ep),
{
    lemma_sizes();
    let corners = state % CORNERS_SIZE as nat;
    let edges = state / CORNERS_SIZE as nat;
    crate::permutation::lemma_rank_of_unrank(corners / CO_SIZE as nat, 7);
    crate::orientation::lemma_ori_rank_of_unrank(corners % CO_SIZE as nat, 7, 3);
    crate::parity::lemma_even_rank_of_unrank(edges, 9);
    lemma_swap_last_two(even_unrank(edges, 9));
    lemma_swap_last_two_permutation(even_unrank(edges, 9));
}

/// Encoding a well-formed cube whose sign on record is right, and decoding
/// the number, gives the cube back.
pub proof fn lemma_decode_of_encode(s: CubeState, base: CubeState)
    requires
        s.wf(),
        s.consistent(),
    ensures
        s.encode() < STATE_SIZE,
        base.decode(s.encode()) == s,
{
    lemma_sizes();
    lemma_unrank_of_rank(s.cp);
    lemma_ori_unrank_of_rank(s.co, 3);
    lemma_even_unrank_of_rank(s.ep);
    lemma_swap_last_two_twice(s.ep);
    let corners = s.corners_coord();
    let edges = s.ep_coord();
    assert(corners < CORNERS_SIZE) by (nonlinear_arith)
        requires
            corners == s.cp_coord() * 729 + s.co_coord(),
            s.cp_coord() < 5040,
            s.co_coord() < 729,
    ;
    assert(s.encode() < STATE_SIZE) by (nonlinear_arith)
        requires
            s.encode() == edges * 3674160 + corners,
            edges < 181440,
            corners < 3674160,
    ;
}

impl Cube {
    /// The solved cube.
    pub fn new() -> (cube: Cube)
        ensures
            cube@ == CubeState::solved(),
            cube@.wf(),
    {
        let cube = Cube { ep: identity(), cp: identity(), co: [0; 7], is_even_perm: true };
        proof {
            lemma_identity_perm(9);
            lemma_identity_perm(7);
            assert(cube.co@ =~= Seq::new(7, |i: int| 0u8));
            lemma_zeros(cube.co@, 3);
        }
        cube
    }

    /// A quarter turn of the upper face.
    pub fn u(&mut self)
        ensures
            final(self)@ == old(self)@.u(),
            old(self)@.wf() ==> final(self)@.wf(),
    {
        cycle4(&mut self.ep, 0, 1, 2, 3);
        cycle4(&mut self.cp, 0, 1, 2, 3);
        cycle4(&mut self.co, 0, 1, 2, 3);
        self.is_even_perm = !self.is_even_perm;
    }

    /// A quarter turn of the right face.
    pub fn r(&mut self)
        ensures
            final(self)@ == old(self)@.r(),
            old(self)@.wf() ==> final(self)@.wf(),
    {
        cycle4(&mut self.ep, 3, 6, 5, 4);
        cycle4(&mut self.cp, 2, 5, 4, 3);
        twist4(&mut self.co, 2, 5, 4, 3, 1, 2, 1, 2, 3);
        self.is_even_perm = !self.is_even_perm;
    }

    /// A half turn of the front face.
    pub fn f2(&mut self)
        ensures
            final(self)@ == old(self)@.f2(),
            old(self)@.wf() ==> final(self)@.wf(),
    {
        swap(&mut self.ep, 0, 7);
        swap(&mut self.ep, 4, 8);
        swap(&mut self.cp, 0, 4);
        swap(&mut self.cp, 3, 6);
        swap(&mut self.co, 0, 4);
        swap(&mut self.co, 3, 6);
    }

    /// Does the move with the given number: 0 for U, 1 for R, 2 for F2.
    /// Any other number is refused and leaves the cube as it is.
    pub fn do_move(&mut self, m: u8) -> (done: Result<(), InvalidMove>)
        ensures
            m == 0 ==> done is Ok && final(self)@ == old(self)@.u(),
            m == 1 ==> done is Ok && final(self)@ == old(self)@.r(),
            m == 2 ==> done is Ok && final(self)@ == old(self)@.f2(),
            m > 2 ==> done is Err && final(self)@ == old(self)@,
            old(self)@.wf() ==> final(self)@.wf(),
    {
        match m {
            0 => {
                self.u();
                Ok(())
            },
            1 => {
                self.r();
                Ok(())
            },
            2 => {
                self.f2();
                Ok(())
            },
            _ => Err(InvalidMove),
        }
    }

    /// U three times: the turn back.
    pub fn up(&mut self)
        ensures
            final(self)@ == old(self)@.u().u().u(),
            old(self)@.wf() ==> final(self)@.wf(),
    {
        self.u();
        self.u();
        self.u();
    }

    /// R three times: the turn back.
    pub fn rp(&mut self)
        ensures
            final(self)@ == old(self)@.r().r().r(),
            old(self)@.wf() ==> final(self)@.wf(),
    {
        self.r();
        self.r();
        self.r();
    }

    /// The coordinate of the places of the edges.
    pub fn ep_coord(&self) -> (coord: u32)
        requires
            self@.wf(),
        ensures
            coord == self@.ep_coord(),
            coord < EP_SIZE,
    {
        proof {
            lemma_sizes();
        }
        encode_even_permutation(&self.ep) as u32
    }

    /// The coordinate of the places of the corners.
    pub fn cp_coord(&self) -> (coord: u32)
        requires
            self@.wf(),
        ensures
            coord == self@.cp_coord(),
            coord < CP_SIZE,
    {
        proof {
            lemma_sizes();
        }
        encode_permutation(&self.cp) as u32
    }

    /// The coordinate of the orientations of the corners.
    pub fn co_coord(&self) -> (coord: u32)
        requires
            self@.wf(),
        ensures
            coord == self@.co_coord(),
            coord < CO_SIZE,
    {
        proof {
            lemma_sizes();
        }
        encode_orientation(&self.co, 3)
    }

    /// Sets the edges from a coordinate, with the sign that is on record.
    pub fn set_ep_coord(&mut self, coord: u32)
        requires
            coord < EP_SIZE,
        ensures
            final(self)@ == old(self)@.with_ep_coord(coord as nat),
            final(self)@.ep_coord() == coord,
            old(self)@.wf() ==> final(self)@.wf(),
    {
        proof {
            lemma_sizes();
        }
        self.ep = decode_even_permutation(coord as u64);
        if !self.is_even_perm {
            proof {
                lemma_swap_last_two(self.ep@);
                lemma_swap_last_two_permutation(self.ep@);
            }
            swap(&mut self.ep, 7, 8);
            assert(self.ep@ =~= swap_last_two(even_unrank(coord as nat, 9)));
        }
    }

    /// Sets the places of the corners from a coordinate.
    pub fn set_cp_coord(&mut self, coord: u32)
        requires
            coord < CP_SIZE,
        ensures
            final(self)@ == (CubeState { cp: lehmer_unrank(coord as nat, 7), ..old(self)@ }),
            final(self)@.cp_coord() == coord,
            is_permutation(final(self).cp@),
    {
        proof {
            lemma_sizes();
        }
        self.cp = decode_permutation(coord as u64);
    }

    /// Sets the orientations of the corners from a coordinate.
    pub fn set_co_coord(&mut self, coord: u32)
        requires
            coord < CO_SIZE,
        ensures
            final(self)@ == (CubeState { co: ori_unrank(coord as nat, 7, 3), ..old(self)@ }),
            final(self)@.co_coord() == coord,
            is_orientation(final(self).co@, 3),
    {
        proof {
            lemma_sizes();
        }
        self.co = decode_orientation(coord, 3);
    }

    /// The corner coordinate.
    pub fn corners_coord(&self) -> (coord: u32)
        requires
            self@.wf(),
        ensures
            coord == self@.corners_coord(),
            coord < CORNERS_SIZE,
    {
        self.cp_coord() * CO_SIZE + self.co_coord()
    }

    /// Sets the corners from a coordinate, and the sign on record from the
    /// corner permutation.
    pub fn set_corners_coord(&mut self, coord: u32)
        requires
            coord < CORNERS_SIZE,
        ensures
            final(self)@ == old(self)@.with_corners_coord(coord as nat),
            final(self)@.corners_coord() == coord,
            old(self)@.wf() ==> final(self)@.wf(),
    {
        self.set_cp_coord(coord / CO_SIZE);
        self.set_co_coord(coord % CO_SIZE);
        self.is_even_perm = is_even(&self.cp);
    }

    /// The cube that a pair of coordinates stands for. The corners are set
    /// first.
    pub fn from(value: CoordCube<'_>) -> (cube: Cube)
        requires
            value.edges < EP_SIZE,
            value.corners < CORNERS_SIZE,
        ensures
            cube@ == CubeState::solved().with_corners_coord(value.corners as nat).with_ep_coord(
                value.edges as nat,
            ),
            cube@.wf(),
            cube@.ep_coord() == value.edges,
            cube@.corners_coord() == value.corners,
    {
        let mut cube = Cube::new();
        cube.set_corners_coord(value.corners);
        cube.set_ep_coord(value.edges);
        cube
    }

    /// The state number.
    pub fn encode(&self) -> (state: u64)
        requires
            self@.wf(),
        ensures
            state == self@.encode(),
            state < STATE_SIZE,
    {
        self.ep_coord() as u64 * CORNERS_SIZE as u64 + self.corners_coord() as u64
    }

    /// Takes the cube to the state with the given number. The corners are
    /// set first, because they tell the sign that the edges need.
    pub fn decode(&mut self, state: u64)
        requires
            state < STATE_SIZE,
        ensures
            final(self)@ == old(self)@.decode(state as nat),
            final(self)@.wf(),
            final(self)@.encode() == state,
    {
        proof {
            lemma_encode_of_decode(self@, state as nat);
        }
        self.set_corners_coord((state % CORNERS_SIZE as u64) as u32);
        self.set_ep_coord((state / CORNERS_SIZE as u64) as u32);
    }
}

/// A move number that names no move.
#[derive(Debug, Clone, Copy, PartialEq, Eq)]
pub struct InvalidMove;

} // verus!
