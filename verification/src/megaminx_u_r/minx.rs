//! The puzzle as piece vectors, its two turns, and its coordinates.
//!
//! Both turns are cycles of five corners and of five edges, which are even
//! permutations, so the corner and the edge permutation of a puzzle that
//! started solved are even, and each is ranked in half the space.

use vstd::prelude::*;
use vstd::string::StringSliceAdditionalSpecFns;
use crate::cycle::{
    cycle5, cycled5, lemma_cycled5, lemma_cycled5_order, lemma_cycled5_sign,
    lemma_turned_five_times, same, twist5, twisted5,
};
use crate::factorial::lemma_fact_values;
use crate::megaminx_u_r::coord_minx::CoordMinx;
use crate::notation::{
    find_token_end, is_space, lemma_token_end, space, token_end, token_is, InvalidMove, DIGIT_2,
    PRIME, UPPER_R, UPPER_U,
};
use crate::orientation::{
    decode_orientation, encode_orientation, is_orientation, lemma_ori_rank_of_unrank,
    lemma_ori_unrank_of_rank, lemma_zeros, ori_rank, ori_unrank, power,
};
use crate::parity::{
    decode_even_permutation, encode_even_permutation, even, even_rank, even_unrank,
    lemma_even_rank_of_unrank, lemma_even_unrank_of_rank,
};
use crate::permutation::{identity, identity_perm, is_permutation, lemma_identity_perm};

verus! {

/// The number of corner permutations that are told apart, `8! / 2`.
pub const CP_SIZE: usize = 20160;

/// The number of corner orientations, `3^7`.
pub const CO_SIZE: usize = 2187;

/// The number of edge permutations that are told apart, `9! / 2`.
pub const EP_SIZE: usize = 181440;

pub const CORNERS_SIZE: usize = 44089920;

pub const STATE_SIZE: u64 = 7999675084800;

#[derive(Debug, Clone, Copy, PartialEq)]
pub struct Megaminx {
    pub cp: [u8; 8],
    pub co: [u8; 8],
    pub ep: [u8; 9],
}

/// What a puzzle holds, as mathematical sequences.
pub struct MinxState {
    pub cp: Seq<u8>,
    pub co: Seq<u8>,
    pub ep: Seq<u8>,
}

impl View for Megaminx {
    type V = MinxState;

    open spec fn view(&self) -> MinxState {
        MinxState { cp: self.cp@, co: self.co@, ep: self.ep@ }
    }
}

/// The two faces that turn.
#[derive(Debug, Clone, Copy, PartialEq, Eq)]
pub enum Face {
    U,
    R,
}

/// A face and the number of fifths, from 1 to 4, that it is turned by.
#[derive(Debug, Clone, Copy, PartialEq, Eq)]
pub struct Turn {
    pub face: Face,
    pub fifths: u8,
}

/// The sizes are what their names say.
pub proof fn lemma_sizes()
    ensures
        CP_SIZE == crate::factorial::fact(8) / 2,
        EP_SIZE == crate::factorial::fact(9) / 2,
        CO_SIZE == power(3, 7),
        CORNERS_SIZE == CP_SIZE * CO_SIZE,
        STATE_SIZE == CORNERS_SIZE * EP_SIZE,
{
    lemma_fact_values();
    reveal_with_fuel(power, 8);
}

impl MinxState {
    /// The vectors have their lengths, the permutations are permutations
    /// and the corner twists add up to a multiple of 3.
    pub open spec fn wf(self) -> bool {
        &&& self.cp.len() == 8 && is_permutation(self.cp)
        &&& self.co.len() == 8 && is_orientation(self.co, 3)
        &&& self.ep.len() == 9 && is_permutation(self.ep)
    }

    /// Both permutations are even, as they are in every state that turns
    /// lead to from the solved one.
    pub open spec fn is_even(self) -> bool {
        even(self.cp) && even(self.ep)
    }

    /// The solved puzzle.
    pub open spec fn solved() -> MinxState {
        MinxState { cp: identity_perm(8), co: Seq::new(8, |i: int| 0u8), ep: identity_perm(9) }
    }

    /// A fifth of a turn of the upper face.
    #[verifier::opaque]
    pub open spec fn u(self) -> MinxState {
        MinxState {
            cp: cycled5(self.cp, 0, 1, 2, 3, 4),
            co: cycled5(self.co, 0, 1, 2, 3, 4),
            ep: cycled5(self.ep, 0, 1, 2, 3, 4),
        }
    }

    /// A fifth of a turn of the right face.
    #[verifier::opaque]
    pub open spec fn r(self) -> MinxState {
        MinxState {
            cp: cycled5(self.cp, 3, 7, 6, 5, 4),
            co: twisted5(self.co, 3, 7, 6, 5, 4, 1, 2, 2, 2, 2, 3),
            ep: cycled5(self.ep, 4, 8, 7, 6, 5),
        }
    }

    /// A face turned by a number of fifths.
    pub open spec fn turned(self, face: Face, fifths: nat) -> MinxState
        decreases fifths,
    {
        if fifths == 0 {
            self
        } else {
            match face {
                Face::U => self.turned(face, (fifths - 1) as nat).u(),
                Face::R => self.turned(face, (fifths - 1) as nat).r(),
            }
        }
    }

    /// The coordinate of the places of the corners.
    pub open spec fn cp_coord(self) -> nat {
        even_rank(self.cp)
    }

    /// The coordinate of the orientations of the corners.
    pub open spec fn co_coord(self) -> nat {
        ori_rank(self.co, 3)
    }

    /// The coordinate of the places of the edges.
    pub open spec fn ep_coord(self) -> nat {
        even_rank(self.ep)
    }

    /// The corner coordinate: permutation and orientation, the permutation
    /// in the higher place.
    pub open spec fn corners_coord(self) -> nat {
        self.cp_coord() * CO_SIZE as nat + self.co_coord()
    }

    /// The state number: corners and edges, the corners in the higher
    /// place.
    pub open spec fn encode(self) -> nat {
        self.corners_coord() * EP_SIZE as nat + self.ep_coord()
    }

    /// The state with the corners set from a coordinate.
    pub open spec fn with_corners_coord(self, coord: nat) -> MinxState {
        MinxState {
            cp: even_unrank(coord / CO_SIZE as nat, 8),
            co: ori_unrank(coord % CO_SIZE as nat, 8, 3),
            ..self
        }
    }

    /// The state with the edges set from a coordinate.
    pub open spec fn with_ep_coord(self, coord: nat) -> MinxState {
        MinxState { ep: even_unrank(coord, 9), ..self }
    }

    /// The state with number `state`.
    pub open spec fn decode(state: nat) -> MinxState {
        MinxState::solved().with_corners_coord(state / EP_SIZE as nat).with_ep_coord(
            state % EP_SIZE as nat,
        )
    }
}

/// The turn that a name stands for: `U` or `R`, alone for one fifth, with
/// `2` for two, with `2'` for three and with `'` for four.
pub open spec fn turn_named(name: Seq<u8>) -> Option<Turn> {
    if name == seq![UPPER_U] {
        Some(Turn { face: Face::U, fifths: 1 })
    } else if name == seq![UPPER_U, DIGIT_2] {
        Some(Turn { face: Face::U, fifths: 2 })
    } else if name == seq![UPPER_U, DIGIT_2, PRIME] {
        Some(Turn { face: Face::U, fifths: 3 })
    } else if name == seq![UPPER_U, PRIME] {
        Some(Turn { face: Face::U, fifths: 4 })
    } else if name == seq![UPPER_R] {
        Some(Turn { face: Face::R, fifths: 1 })
    } else if name == seq![UPPER_R, DIGIT_2] {
        Some(Turn { face: Face::R, fifths: 2 })
    } else if name == seq![UPPER_R, DIGIT_2, PRIME] {
        Some(Turn { face: Face::R, fifths: 3 })
    } else if name == seq![UPPER_R, PRIME] {
        Some(Turn { face: Face::R, fifths: 4 })
    } else {
        None
    }
}

/// The turn that a token names.
pub fn parse_turn(bytes: &[u8], start: usize, end: usize) -> (turn: Option<Turn>)
    requires
        start <= end <= bytes@.len(),
    ensures
        turn == turn_named(bytes@.subrange(start as int, end as int)),
        turn matches Some(t) ==> 1 <= t.fifths <= 4,
{
    let u1: [u8; 1] = [UPPER_U];
    let u2: [u8; 2] = [UPPER_U, DIGIT_2];
    let u3: [u8; 3] = [UPPER_U, DIGIT_2, PRIME];
    let u4: [u8; 2] = [UPPER_U, PRIME];
    let r1: [u8; 1] = [UPPER_R];
    let r2: [u8; 2] = [UPPER_R, DIGIT_2];
    let r3: [u8; 3] = [UPPER_R, DIGIT_2, PRIME];
    let r4: [u8; 2] = [UPPER_R, PRIME];
    proof {
        assert(u1@ =~= seq![UPPER_U]);
        assert(u2@ =~= seq![UPPER_U, DIGIT_2]);
        assert(u3@ =~= seq![UPPER_U, DIGIT_2, PRIME]);
        assert(u4@ =~= seq![UPPER_U, PRIME]);
        assert(r1@ =~= seq![UPPER_R]);
        assert(r2@ =~= seq![UPPER_R, DIGIT_2]);
        assert(r3@ =~= seq![UPPER_R, DIGIT_2, PRIME]);
        assert(r4@ =~= seq![UPPER_R, PRIME]);
    }
    if token_is(bytes, start, end, &u1) {
        Some(Turn { face: Face::U, fifths: 1 })
    } else if token_is(bytes, start, end, &u2) {
        Some(Turn { face: Face::U, fifths: 2 })
    } else if token_is(bytes, start, end, &u3) {
        Some(Turn { face: Face::U, fifths: 3 })
    } else if token_is(bytes, start, end, &u4) {
        Some(Turn { face: Face::U, fifths: 4 })
    } else if token_is(bytes, start, end, &r1) {
        Some(Turn { face: Face::R, fifths: 1 })
    } else if token_is(bytes, start, end, &r2) {
        Some(Turn { face: Face::R, fifths: 2 })
    } else if token_is(bytes, start, end, &r3) {
        Some(Turn { face: Face::R, fifths: 3 })
    } else if token_is(bytes, start, end, &r4) {
        Some(Turn { face: Face::R, fifths: 4 })
    } else {
        None
    }
}

/// The state after the turns that `bytes` names from `pos` on, and whether
/// every name was that of a turn. The first name that is not stops
/// everything.
pub open spec fn after_alg(s: MinxState, bytes: Seq<u8>, pos: int) -> (MinxState, bool)
    decreases bytes.len() - pos,
{
    if pos < 0 || pos >= bytes.len() {
        (s, true)
    } else if is_space(bytes[pos]) {
        after_alg(s, bytes, pos + 1)
    } else {
        let end = token_end(bytes, pos);
        proof {
            lemma_token_end(bytes, pos);
        }
        match turn_named(bytes.subrange(pos, end)) {
            Some(turn) => after_alg(s.turned(turn.face, turn.fifths as nat), bytes, end),
            None => (s, false),
        }
    }
}

/// The solved puzzle is well-formed and even.
pub proof fn lemma_solved()
    ensures
        MinxState::solved().wf(),
        MinxState::solved().is_even(),
        MinxState::solved().encode() == 0,
{
    let s = MinxState::solved();
    lemma_identity_perm(8);
    lemma_identity_perm(9);
    lemma_zeros(s.co, 3);
    crate::parity::lemma_identity_even(8);
    crate::parity::lemma_identity_even(9);
    crate::orientation::lemma_zero_rank(s.co, 3);
}

/// The turns keep a well-formed puzzle well-formed and an even one even.
pub proof fn lemma_turns_keep_wf(s: MinxState)
    requires
        s.wf(),
    ensures
        s.u().wf(),
        s.r().wf(),
        s.u().is_even() == s.is_even(),
        s.r().is_even() == s.is_even(),
{
    reveal(MinxState::u);
    reveal(MinxState::r);
    lemma_cycled5(s.cp, 0, 1, 2, 3, 4);
    lemma_cycled5(s.co, 0, 1, 2, 3, 4);
    lemma_cycled5(s.ep, 0, 1, 2, 3, 4);
    lemma_cycled5(s.cp, 3, 7, 6, 5, 4);
    crate::cycle::lemma_twisted5(s.co, 3, 7, 6, 5, 4, 1, 2, 2, 2, 2, 3);
    lemma_cycled5(s.ep, 4, 8, 7, 6, 5);
    lemma_cycled5_sign(s.cp, 0, 1, 2, 3, 4);
    lemma_cycled5_sign(s.ep, 0, 1, 2, 3, 4);
    lemma_cycled5_sign(s.cp, 3, 7, 6, 5, 4);
    lemma_cycled5_sign(s.ep, 4, 8, 7, 6, 5);
}

/// Either turn comes back after five fifths, and not before.
pub proof fn lemma_turn_order(s: MinxState)
    requires
        s.wf(),
    ensures
        s.u().u().u().u().u() == s,
        s.r().r().r().r().r() == s,
        s.u() != s && s.u().u() != s && s.u().u().u() != s && s.u().u().u().u() != s,
        s.r() != s && s.r().r() != s && s.r().r().r() != s && s.r().r().r().r() != s,
{
    reveal(MinxState::u);
    reveal(MinxState::r);
    lemma_cycled5_order(s.cp, 0, 1, 2, 3, 4);
    lemma_cycled5_order(s.co, 0, 1, 2, 3, 4);
    lemma_cycled5_order(s.ep, 0, 1, 2, 3, 4);
    lemma_cycled5_order(s.cp, 3, 7, 6, 5, 4);
    lemma_cycled5_order(s.ep, 4, 8, 7, 6, 5);
    assert(s.co[3] < 3 && s.co[4] < 3 && s.co[5] < 3 && s.co[6] < 3 && s.co[7] < 3);
    lemma_turned_five_times(s.co[3], 2, 2, 2, 2, 1, 3);
    lemma_turned_five_times(s.co[7], 2, 2, 2, 1, 2, 3);
    lemma_turned_five_times(s.co[6], 2, 2, 1, 2, 2, 3);
    lemma_turned_five_times(s.co[5], 2, 1, 2, 2, 2, 3);
    lemma_turned_five_times(s.co[4], 1, 2, 2, 2, 2, 3);
    assert(s.r().r().r().r().r().co =~= s.co);
}

/// Decoding a state number and encoding the state gives the number back;
/// the state is well-formed and even.
pub proof fn lemma_encode_of_decode(state: nat)
    requires
        state < STATE_SIZE,
    ensures
        MinxState::decode(state).wf(),
        MinxState::decode(state).is_even(),
        MinxState::decode(state).encode() == state,
{
    lemma_sizes();
    lemma_corners_of_coord(MinxState::solved(), state / EP_SIZE as nat);
    lemma_even_rank_of_unrank(state % EP_SIZE as nat, 9);
    lemma_identity_perm(9);
}

/// Setting the corners from a coordinate and reading the coordinate gives
/// it back.
pub proof fn lemma_corners_of_coord(s: MinxState, coord: nat)
    requires
        coord < CORNERS_SIZE,
    ensures
        s.with_corners_coord(coord).corners_coord() == coord,
        s.with_corners_coord(coord).cp.len() == 8,
        is_permutation(s.with_corners_coord(coord).cp),
        even(s.with_corners_coord(coord).cp),
        s.with_corners_coord(coord).co.len() == 8,
        is_orientation(s.with_corners_coord(coord).co, 3),
{
    lemma_sizes();
    lemma_even_rank_of_unrank(coord / CO_SIZE as nat, 8);
    lemma_ori_rank_of_unrank(coord % CO_SIZE as nat, 8, 3);
}

/// Encoding a well-formed, even state and decoding the number gives the
/// state back.
pub proof fn lemma_decode_of_encode(s: MinxState)
    requires
        s.wf(),
        s.is_even(),
    ensures
        s.corners_coord() < CORNERS_SIZE,
        s.ep_coord() < EP_SIZE,
        s.encode() < STATE_SIZE,
        s.with_corners_coord(s.corners_coord()) == s,
        s.with_ep_coord(s.ep_coord()) == s,
        MinxState::decode(s.encode()) == s,
{
    lemma_sizes();
    lemma_even_unrank_of_rank(s.cp);
    lemma_even_unrank_of_rank(s.ep);
    lemma_ori_unrank_of_rank(s.co, 3);
    let c = s.corners_coord();
    assert(c / 2187 == s.cp_coord() && c % 2187 == s.co_coord() && c < 44089920) by (nonlinear_arith)
        requires
            c == s.cp_coord() * 2187 + s.co_coord(),
            s.co_coord() < 2187,
            s.cp_coord() < 20160,
    ;
    let n = s.encode();
    let e = s.ep_coord();
    assert(n / 181440 == c && n % 181440 == e && n < 7999675084800) by (nonlinear_arith)
        requires
            n == c * 181440 + e,
            e < 181440,
            c < 44089920,
    ;
    assert(s.with_corners_coord(c) == s);
    assert(s.with_ep_coord(e) == s);
}

impl Megaminx {
    /// The solved puzzle.
    pub fn new() -> (minx: Megaminx)
        ensures
            minx@ == MinxState::solved(),
            minx@.wf(),
    {
        let minx = Megaminx { cp: identity(), co: [0; 8], ep: identity() };
        proof {
            assert(minx.co@ =~= Seq::new(8, |i: int| 0u8));
            lemma_solved();
        }
        minx
    }

    /// Whether the puzzle is solved.
    pub fn is_solved(&self) -> (solved: bool)
        ensures
            solved == (self@ == MinxState::solved()),
    {
        let home = Megaminx::new();
        same(&self.cp, &home.cp) && same(&self.co, &home.co) && same(&self.ep, &home.ep)
    }

    /// A fifth of a turn of the upper face.
    pub fn u(&mut self)
        ensures
            final(self)@ == old(self)@.u(),
            old(self)@.wf() ==> final(self)@.wf(),
    {
        proof {
            reveal(MinxState::u);
            if self@.wf() {
                lemma_turns_keep_wf(self@);
            }
        }
        cycle5(&mut self.cp, 0, 1, 2, 3, 4);
        cycle5(&mut self.co, 0, 1, 2, 3, 4);
        cycle5(&mut self.ep, 0, 1, 2, 3, 4);
    }

    /// A fifth of a turn of the right face.
    pub fn r(&mut self)
        ensures
            final(self)@ == old(self)@.r(),
            old(self)@.wf() ==> final(self)@.wf(),
    {
        proof {
            reveal(MinxState::r);
            if self@.wf() {
                lemma_turns_keep_wf(self@);
            }
        }
        cycle5(&mut self.cp, 3, 7, 6, 5, 4);
        twist5(&mut self.co, 3, 7, 6, 5, 4, 1, 2, 2, 2, 2, 3);
        cycle5(&mut self.ep, 4, 8, 7, 6, 5);
    }

    /// Turns a face by a number of fifths.
    pub fn turn(&mut self, turn: Turn)
        ensures
            final(self)@ == old(self)@.turned(turn.face, turn.fifths as nat),
            old(self)@.wf() ==> final(self)@.wf(),
    {
        let mut done: u8 = 0;
        while done < turn.fifths
            invariant
                done <= turn.fifths,
                self@ == old(self)@.turned(turn.face, done as nat),
                old(self)@.wf() ==> self@.wf(),
            decreases turn.fifths - done,
        {
            match turn.face {
                Face::U => self.u(),
                Face::R => self.r(),
            }
            done = done + 1;
        }
    }

    /// Does the turn named `U`, `U2`, `U2'`, `U'`, `R`, `R2`, `R2'` or
    /// `R'`. Any other name is refused and leaves the puzzle as it is.
    pub fn do_move(&mut self, mv: &str) -> (done: Result<(), InvalidMove>)
        ensures
            match turn_named(mv.spec_bytes()) {
                Some(turn) => done is Ok && final(self)@ == old(self)@.turned(
                    turn.face,
                    turn.fifths as nat,
                ),
                None => done is Err && final(self)@ == old(self)@,
            },
            old(self)@.wf() ==> final(self)@.wf(),
    {
        let bytes = mv.as_bytes();
        assert(bytes@.subrange(0, bytes@.len() as int) =~= bytes@);
        match parse_turn(bytes, 0, bytes.len()) {
            Some(turn) => {
                self.turn(turn);
                Ok(())
            },
            None => Err(InvalidMove),
        }
    }

    /// Does the turns named in `alg`, which are separated by white space,
    /// one after the other. The first name that names no turn is refused:
    /// the turns before it have been done, those after it are not.
    pub fn do_alg(&mut self, alg: &str) -> (done: Result<(), InvalidMove>)
        ensures
            final(self)@ == after_alg(old(self)@, alg.spec_bytes(), 0).0,
            done is Ok <==> after_alg(old(self)@, alg.spec_bytes(), 0).1,
            old(self)@.wf() ==> final(self)@.wf(),
    {
        let bytes = alg.as_bytes();
        let mut pos: usize = 0;
        while pos < bytes.len()
            invariant
                pos <= bytes@.len(),
                bytes@ == alg.spec_bytes(),
                after_alg(self@, bytes@, pos as int) == after_alg(old(self)@, bytes@, 0),
                old(self)@.wf() ==> self@.wf(),
            decreases bytes@.len() - pos,
        {
            if space(bytes[pos]) {
                pos = pos + 1;
            } else {
                let end = find_token_end(bytes, pos);
                proof {
                    lemma_token_end(bytes@, pos as int);
                }
                match parse_turn(bytes, pos, end) {
                    Some(turn) => {
                        self.turn(turn);
                        pos = end;
                    },
                    None => {
                        return Err(InvalidMove);
                    },
                }
            }
        }
        Ok(())
    }

    /// The coordinate of the places of the corners.
    pub fn cp_coord(&self) -> (coord: u32)
        requires
            self@.wf(),
        ensures
            coord == self@.cp_coord(),
            coord < CP_SIZE,
    {
        proof {
            lemma_sizes();
        }
        encode_even_permutation(&self.cp) as u32
    }

    /// The coordinate of the orientations of the corners.
    pub fn co_coord(&self) -> (coord: u32)
        requires
            self@.wf(),
        ensures
            coord == self@.co_coord(),
            coord < CO_SIZE,
    {
        proof {
            lemma_sizes();
        }
        encode_orientation(&self.co, 3)
    }

    /// The coordinate of the places of the edges.
    pub fn ep_coord(&self) -> (coord: u32)
        requires
            self@.wf(),
        ensures
            coord == self@.ep_coord(),
            coord < EP_SIZE,
    {
        proof {
            lemma_sizes();
        }
        encode_even_permutation(&self.ep) as u32
    }

    /// Sets the places of the corners from a coordinate.
    pub fn set_cp_coord(&mut self, coord: u32)
        requires
            coord < CP_SIZE,
        ensures
            final(self)@ == (MinxState { cp: even_unrank(coord as nat, 8), ..old(self)@ }),
            is_permutation(final(self).cp@),
            even(final(self).cp@),
            final(self)@.cp_coord() == coord,
    {
        proof {
            lemma_sizes();
        }
        self.cp = decode_even_permutation(coord as u64);
    }

    /// The last corner gets the orientation that brings the sum of all to
    /// a multiple of 3.
    pub fn set_co_coord(&mut self, coord: u32)
        requires
            coord < CO_SIZE,
        ensures
            final(self)@ == (MinxState { co: ori_unrank(coord as nat, 8, 3), ..old(self)@ }),
            is_orientation(final(self).co@, 3),
            final(self)@.co_coord() == coord,
    {
        proof {
            lemma_sizes();
        }
        self.co = decode_orientation(coord, 3);
    }

    /// Sets the places of the edges from a coordinate.
    pub fn set_ep_coord(&mut self, coord: u32)
        requires
            coord < EP_SIZE,
        ensures
            final(self)@ == old(self)@.with_ep_coord(coord as nat),
            is_permutation(final(self).ep@),
            even(final(self).ep@),
            final(self)@.ep_coord() == coord,
            old(self)@.wf() ==> final(self)@.wf(),
    {
        proof {
            lemma_sizes();
        }
        self.ep = decode_even_permutation(coord as u64);
    }

    /// The corner coordinate.
    pub fn corners_coord(&self) -> (coord: u32)
        requires
            self@.wf(),
        ensures
            coord == self@.corners_coord(),
            coord < CORNERS_SIZE,
    {
        self.cp_coord() * CO_SIZE as u32 + self.co_coord()
    }

    /// Sets the corners from a coordinate: permutation first, then orientation.
    pub fn set_corners_coord(&mut self, coord: u32)
        requires
            coord < CORNERS_SIZE,
        ensures
            final(self)@ == old(self)@.with_corners_coord(coord as nat),
            final(self)@.corners_coord() == coord,
            even(final(self).cp@),
            old(self)@.wf() ==> final(self)@.wf(),
    {
        proof {
            lemma_corners_of_coord(self@, coord as nat);
        }
        self.set_cp_coord(coord / CO_SIZE as u32);
        self.set_co_coord(coord % CO_SIZE as u32);
    }

    /// The state number.
    pub fn encode(&self) -> (state: u64)
        requires
            self@.wf(),
        ensures
            state == self@.encode(),
            state < STATE_SIZE,
    {
        self.corners_coord() as u64 * EP_SIZE as u64 + self.ep_coord() as u64
    }

    /// Takes the puzzle to the state with the given number.
    pub fn decode(&mut self, coord: u64)
        requires
            coord < STATE_SIZE,
        ensures
            final(self)@ == MinxState::decode(coord as nat),
            final(self)@.wf(),
            final(self)@.is_even(),
            final(self)@.encode() == coord,
    {
        proof {
            lemma_encode_of_decode(coord as nat);
            lemma_sizes();
        }
        self.set_corners_coord((coord / EP_SIZE as u64) as u32);
        self.set_ep_coord((coord % EP_SIZE as u64) as u32);
        assert(self@ == MinxState::decode(coord as nat));
    }

    /// The puzzle that a pair of coordinates stands for.
    pub fn from(value: &CoordMinx<'_>) -> (minx: Megaminx)
        requires
            value.corners < CORNERS_SIZE,
            value.edges < EP_SIZE,
        ensures
            minx@ == MinxState::solved().with_corners_coord(value.corners as nat).with_ep_coord(
                value.edges as nat,
            ),
            minx@.wf(),
            minx@.is_even(),
            minx@.corners_coord() == value.corners,
            minx@.ep_coord() == value.edges,
    {
        let mut minx = Megaminx::new();
        minx.set_corners_coord(value.corners);
        minx.set_ep_coord(value.edges);
        minx
    }
}

} // verus!
