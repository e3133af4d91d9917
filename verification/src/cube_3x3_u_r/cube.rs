//! The cube as piece vectors, its moves, and its coordinates.
//!
//! Corners: UFL ULB UBR URF DFR DRB. Edges: UF UL UB UR FR BR DF DR DB.
//!
//! The slice M turns the centres, of which only a quarter turn more or
//! less shows. The signs of the corner and of the edge permutation tell
//! whether the centres are an odd number of quarter turns away, so the
//! permutation coordinate keeps only the other half of that number, and
//! decoding works the first half out from the two permutations, which have
//! to be decoded before.

use vstd::prelude::*;
use vstd::string::StringSliceAdditionalSpecFns;
use crate::cube_3x3_u_r::coord_cube::CoordCube;
use crate::cube_3x3_u_r::corner_table::{
    corner_arrangement, corner_arrangement_at, corner_number, in_corner_group,
    lemma_corner_arrangement, lemma_corner_number, lemma_turns_stay_in_group, CP_SIZE,
};
use crate::cycle::{
    cycle4, cycled4, lemma_cycled4, lemma_cycled4_order, lemma_cycled4_sign, lemma_twisted4,
    lemma_twisted4_order, same, twist4, twisted4,
};
use crate::factorial::lemma_fact_values;
use crate::notation::{token_is, InvalidMove, DIGIT_2, LOWER_R, PRIME, UPPER_M, UPPER_R, UPPER_U};
use crate::orientation::{
    decode_orientation, encode_orientation, is_orientation, lemma_ori_rank_of_unrank,
    lemma_ori_unrank_of_rank, lemma_zero_rank, lemma_zeros, ori_rank, ori_unrank, power,
};
use crate::parity::{even, inversions, lemma_identity_even, parity};
use crate::permutation::{
    decode_permutation, encode_permutation, identity, identity_perm, is_permutation, lehmer_rank,
    lehmer_unrank, lemma_identity_perm, lemma_rank_of_unrank, lemma_unrank_of_rank,
};

verus! {

/// The number of corner orientations, `3^5`.
pub const CO_SIZE: u32 = 243;

/// The number of edge permutations, `9!`.
pub const EP_SIZE: u32 = 362880;

/// The number of edge orientations, `2^8`.
pub const EO_SIZE: u32 = 256;

/// The number of permutation coordinates: corners, edges, and half of the
/// centres.
pub const PERM_SIZE: u32 = 87091200;

/// The number of orientation coordinates.
pub const ORI_SIZE: u32 = 62208;

pub const STATE_SIZE: u64 = 5417769369600;

#[derive(Debug, Clone, Copy, PartialEq)]
pub struct Cube {
    pub cp: [u8; 6],
    pub co: [u8; 6],
    pub ep: [u8; 9],
    pub eo: [u8; 9],
    pub centers: u8,
}

/// What a cube holds, as mathematical values.
pub struct CubeState {
    pub cp: Seq<u8>,
    pub co: Seq<u8>,
    pub ep: Seq<u8>,
    pub eo: Seq<u8>,
    pub centers: u8,
}

impl View for Cube {
    type V = CubeState;

    open spec fn view(&self) -> CubeState {
        CubeState {
            cp: self.cp@,
            co: self.co@,
            ep: self.ep@,
            eo: self.eo@,
            centers: self.centers,
        }
    }
}

/// The moves that have a name.
#[derive(Debug, Clone, Copy, PartialEq, Eq)]
pub enum Turn {
    U,
    U2,
    UInv,
    R,
    R2,
    RInv,
    M,
    M2,
    MInv,
    Rw,
    Rw2,
    RwInv,
}

/// The sizes are what their names say.
pub proof fn lemma_sizes()
    ensures
        EP_SIZE == crate::factorial::fact(9),
        crate::factorial::fact(6) == 720,
        CO_SIZE == power(3, 5),
        EO_SIZE == power(2, 8),
        PERM_SIZE == CP_SIZE * EP_SIZE * 2,
        ORI_SIZE == CO_SIZE * EO_SIZE,
        STATE_SIZE == PERM_SIZE * ORI_SIZE,
{
    lemma_fact_values();
    reveal_with_fuel(power, 9);
}

/// 0 for an even permutation, 1 for an odd one.
pub open spec fn sign(s: Seq<u8>) -> nat {
    inversions(s) % 2
}

impl CubeState {
    /// The vectors have their lengths, the permutations are permutations,
    /// the twists of the corners add up to a multiple of 3 and the flips of
    /// the edges to a multiple of 2, and the centres are turned by less
    /// than a full turn.
    pub open spec fn wf(self) -> bool {
        &&& self.cp.len() == 6 && is_permutation(self.cp)
        &&& self.co.len() == 6 && is_orientation(self.co, 3)
        &&& self.ep.len() == 9 && is_permutation(self.ep)
        &&& self.eo.len() == 9 && is_orientation(self.eo, 2)
        &&& self.centers < 4
    }

    /// The centres are an odd number of quarter turns away exactly if one
    /// of the two permutations is odd and the other even.
    pub open spec fn consistent(self) -> bool {
        self.centers % 2 == (sign(self.cp) + sign(self.ep)) % 2
    }

    /// The corners are arranged as the turns can arrange them.
    pub open spec fn corners_in_group(self) -> bool {
        in_corner_group(self.cp)
    }

    /// The solved cube.
    pub open spec fn solved() -> CubeState {
        CubeState {
            cp: identity_perm(6),
            co: Seq::new(6, |i: int| 0u8),
            ep: identity_perm(9),
            eo: Seq::new(9, |i: int| 0u8),
            centers: 0,
        }
    }

    /// A quarter turn of the upper face.
    #[verifier::opaque]
    pub open spec fn u(self) -> CubeState {
        CubeState {
            cp: cycled4(self.cp, 0, 1, 2, 3),
            co: cycled4(self.co, 0, 1, 2, 3),
            ep: cycled4(self.ep, 0, 1, 2, 3),
            eo: cycled4(self.eo, 0, 1, 2, 3),
            ..self
        }
    }

    /// A quarter turn of the right face.
    #[verifier::opaque]
    pub open spec fn r(self) -> CubeState {
        CubeState {
            cp: cycled4(self.cp, 2, 5, 4, 3),
            co: twisted4(self.co, 2, 5, 4, 3, 1, 2, 1, 2, 3),
            ep: cycled4(self.ep, 3, 5, 7, 4),
            eo: cycled4(self.eo, 3, 5, 7, 4),
            ..self
        }
    }

    /// A quarter turn of the middle layer between the left and the right
    /// face.
    #[verifier::opaque]
    pub open spec fn m(self) -> CubeState {
        CubeState {
            ep: cycled4(self.ep, 0, 6, 8, 2),
            eo: twisted4(self.eo, 0, 6, 8, 2, 1, 1, 1, 1, 2),
            centers: ((self.centers + 1) % 4) as u8,
            ..self
        }
    }

    /// The cube after a half turn of the upper face.
    pub open spec fn u2(self) -> CubeState {
        self.u().u()
    }

    /// The cube after a quarter turn of the upper face the other way.
    pub open spec fn u_inv(self) -> CubeState {
        self.u().u().u()
    }

    /// The cube after a half turn of the right face.
    pub open spec fn r2(self) -> CubeState {
        self.r().r()
    }

    /// The cube after a quarter turn of the right face the other way.
    pub open spec fn r_inv(self) -> CubeState {
        self.r().r().r()
    }

    /// The cube after a half turn of the middle layer.
    pub open spec fn m2(self) -> CubeState {
        self.m().m()
    }

    /// The cube after a quarter turn of the middle layer the other way.
    pub open spec fn m_inv(self) -> CubeState {
        self.m().m().m()
    }

    /// The right face together with the middle layer, a quarter turn.
    pub open spec fn rw(self) -> CubeState {
        self.r().m_inv()
    }

    /// The cube after a half turn of the right face together with the middle layer.
    pub open spec fn rw2(self) -> CubeState {
        self.r2().m2()
    }

    /// The cube after a quarter turn of the right face together with the
    /// middle layer, the other way.
    pub open spec fn rw_inv(self) -> CubeState {
        self.r_inv().m()
    }

    /// The cube after a move.
    pub open spec fn turned(self, turn: Turn) -> CubeState {
        match turn {
            Turn::U => self.u(),
            Turn::U2 => self.u2(),
            Turn::UInv => self.u_inv(),
            Turn::R => self.r(),
            Turn::R2 => self.r2(),
            Turn::RInv => self.r_inv(),
            Turn::M => self.m(),
            Turn::M2 => self.m2(),
            Turn::MInv => self.m_inv(),
            Turn::Rw => self.rw(),
            Turn::Rw2 => self.rw2(),
            Turn::RwInv => self.rw_inv(),
        }
    }

    /// The coordinate of the places of the corners.
    pub open spec fn cp_coord(self) -> nat {
        corner_number(self.cp)
    }

    /// The coordinate of the orientations of the corners.
    pub open spec fn co_coord(self) -> nat {
        ori_rank(self.co, 3)
    }

    /// The coordinate of the places of the edges.
    pub open spec fn ep_coord(self) -> nat {
        lehmer_rank(self.ep)
    }

    /// The coordinate of the orientations of the edges.
    pub open spec fn eo_coord(self) -> nat {
        ori_rank(self.eo, 2)
    }

    /// The permutation coordinate: corners, edges, and whether the centres
    /// are two quarter turns or more away, the corners in the highest
    /// place.
    pub open spec fn perm_coord(self) -> nat {
        self.cp_coord() * EP_SIZE as nat * 2 + self.ep_coord() * 2 + self.centers as nat / 2
    }

    /// The orientation coordinate: corners and edges, the corners in the
    /// higher place.
    pub open spec fn ori_coord(self) -> nat {
        self.co_coord() * EO_SIZE as nat + self.eo_coord()
    }

    /// The state number: permutation and orientation, the permutation in
    /// the higher place.
    pub open spec fn encode(self) -> nat {
        self.perm_coord() * ORI_SIZE as nat + self.ori_coord()
    }

    /// The state with the permutations and the centres set from a
    /// coordinate.
    pub open spec fn with_perm_coord(self, coord: nat) -> CubeState {
        let cp = corner_arrangement((coord / 2) / EP_SIZE as nat);
        let ep = lehmer_unrank((coord / 2) % EP_SIZE as nat, 9);
        CubeState {
            cp,
            ep,
            centers: ((coord % 2) * 2 + (sign(cp) + sign(ep)) % 2) as u8,
            ..self
        }
    }

    /// The state with the orientations set from a coordinate.
    pub open spec fn with_ori_coord(self, coord: nat) -> CubeState {
        CubeState {
            co: ori_unrank(coord / EO_SIZE as nat, 6, 3),
            eo: ori_unrank(coord % EO_SIZE as nat, 9, 2),
            ..self
        }
    }

    /// The state with number `state`.
    pub open spec fn decode(self, state: nat) -> CubeState {
        self.with_perm_coord(state / ORI_SIZE as nat).with_ori_coord(state % ORI_SIZE as nat)
    }
}

/// The move that a name stands for: `U`, `R`, `M` or `r`, alone for a
/// quarter turn, with `2` for a half turn and with `'` for a quarter turn
/// the other way.
pub open spec fn turn_named(name: Seq<u8>) -> Option<Turn> {
    if name == seq![UPPER_U] {
        Some(Turn::U)
    } else if name == seq![UPPER_U, DIGIT_2] {
        Some(Turn::U2)
    } else if name == seq![UPPER_U, PRIME] {
        Some(Turn::UInv)
    } else if name == seq![UPPER_R] {
        Some(Turn::R)
    } else if name == seq![UPPER_R, DIGIT_2] {
        Some(Turn::R2)
    } else if name == seq![UPPER_R, PRIME] {
        Some(Turn::RInv)
    } else if name == seq![UPPER_M] {
        Some(Turn::M)
    } else if name == seq![UPPER_M, DIGIT_2] {
        Some(Turn::M2)
    } else if name == seq![UPPER_M, PRIME] {
        Some(Turn::MInv)
    } else if name == seq![LOWER_R] {
        Some(Turn::Rw)
    } else if name == seq![LOWER_R, DIGIT_2] {
        Some(Turn::Rw2)
    } else if name == seq![LOWER_R, PRIME] {
        Some(Turn::RwInv)
    } else {
        None
    }
}

/// The move that a name stands for.
pub fn parse_turn(bytes: &[u8]) -> (turn: Option<Turn>)
    ensures
        turn == turn_named(bytes@),
{
    let n = bytes.len();
    if n == 0 || n > 2 {
        return None;
    }
    let quarter: [u8; 1] = [bytes[0]];
    let half: [u8; 2] = [bytes[0], DIGIT_2];
    let back: [u8; 2] = [bytes[0], PRIME];
    proof {
        assert(quarter@ =~= seq![bytes@[0]]);
        assert(half@ =~= seq![bytes@[0], DIGIT_2]);
        assert(back@ =~= seq![bytes@[0], PRIME]);
        assert(bytes@.subrange(0, n as int) =~= bytes@);
    }
    let is_quarter = token_is(bytes, 0, n, &quarter);
    let is_half = token_is(bytes, 0, n, &half);
    let is_back = token_is(bytes, 0, n, &back);
    let face = bytes[0];
    if face == UPPER_U {
        if is_quarter {
            Some(Turn::U)
        } else if is_half {
            Some(Turn::U2)
        } else if is_back {
            Some(Turn::UInv)
        } else {
            None
        }
    } else if face == UPPER_R {
        if is_quarter {
            Some(Turn::R)
        } else if is_half {
            Some(Turn::R2)
        } else if is_back {
            Some(Turn::RInv)
        } else {
            None
        }
    } else if face == UPPER_M {
        if is_quarter {
            Some(Turn::M)
        } else if is_half {
            Some(Turn::M2)
        } else if is_back {
            Some(Turn::MInv)
        } else {
            None
        }
    } else if face == LOWER_R {
        if is_quarter {
            Some(Turn::Rw)
        } else if is_half {
            Some(Turn::Rw2)
        } else if is_back {
            Some(Turn::RwInv)
        } else {
            None
        }
    } else {
        None
    }
}

/// The solved cube is well-formed, its centres agree with its
/// permutations, and its number is 0.
pub proof fn lemma_solved()
    ensures
        CubeState::solved().wf(),
        CubeState::solved().consistent(),
        CubeState::solved().corners_in_group(),
        CubeState::solved().encode() == 0,
{
    let s = CubeState::solved();
    lemma_identity_perm(6);
    lemma_identity_perm(9);
    lemma_identity_even(6);
    lemma_identity_even(9);
    lemma_zeros(s.co, 3);
    lemma_zeros(s.eo, 2);
    lemma_zero_rank(s.co, 3);
    lemma_zero_rank(s.eo, 2);
    lemma_corner_arrangement(0);
    assert(corner_arrangement(0) =~= identity_perm(6));
}

/// The three elementary moves keep a well-formed cube well-formed, and
/// keep the centres in agreement with the permutations.
pub proof fn lemma_moves_keep_wf(s: CubeState)
    requires
        s.wf(),
    ensures
        s.u().wf(),
        s.r().wf(),
        s.m().wf(),
        s.consistent() ==> s.u().consistent() && s.r().consistent() && s.m().consistent(),
        s.corners_in_group() ==> s.u().corners_in_group() && s.r().corners_in_group()
            && s.m().corners_in_group(),
{
    reveal(CubeState::u);
    if s.corners_in_group() {
        lemma_turns_stay_in_group(s.cp);
    }
    reveal(CubeState::r);
    reveal(CubeState::m);
    lemma_cycled4(s.cp, 0, 1, 2, 3);
    lemma_cycled4(s.co, 0, 1, 2, 3);
    lemma_cycled4(s.ep, 0, 1, 2, 3);
    lemma_cycled4(s.eo, 0, 1, 2, 3);
    lemma_cycled4(s.cp, 2, 5, 4, 3);
    lemma_twisted4(s.co, 2, 5, 4, 3, 1, 2, 1, 2, 3);
    lemma_cycled4(s.ep, 3, 5, 7, 4);
    lemma_cycled4(s.eo, 3, 5, 7, 4);
    lemma_cycled4(s.ep, 0, 6, 8, 2);
    lemma_twisted4(s.eo, 0, 6, 8, 2, 1, 1, 1, 1, 2);
    lemma_cycled4_sign(s.cp, 0, 1, 2, 3);
    lemma_cycled4_sign(s.ep, 0, 1, 2, 3);
    lemma_cycled4_sign(s.cp, 2, 5, 4, 3);
    lemma_cycled4_sign(s.ep, 3, 5, 7, 4);
    lemma_cycled4_sign(s.ep, 0, 6, 8, 2);
}

/// Each of the three elementary moves comes back after four times, and
/// not before.
pub proof fn lemma_quarter_turns(s: CubeState)
    requires
        s.wf(),
    ensures
        s.u().u().u().u() == s,
        s.r().r().r().r() == s,
        s.m().m().m().m() == s,
        s.u() != s && s.u().u() != s && s.u().u().u() != s,
        s.r() != s && s.r().r() != s && s.r().r().r() != s,
        s.m() != s && s.m().m() != s && s.m().m().m() != s,
{
    lemma_u_order(s);
    lemma_r_order(s);
    lemma_m_order(s);
}

proof fn lemma_u_order(s: CubeState)
    requires
        s.wf(),
    ensures
        s.u().u().u().u() == s,
        s.u() != s && s.u().u() != s && s.u().u().u() != s,
{
    reveal(CubeState::u);
    lemma_cycled4_order(s.cp, 0, 1, 2, 3);
    lemma_cycled4_order(s.co, 0, 1, 2, 3);
    lemma_cycled4_order(s.ep, 0, 1, 2, 3);
    lemma_cycled4_order(s.eo, 0, 1, 2, 3);
}

proof fn lemma_r_order(s: CubeState)
    requires
        s.wf(),
    ensures
        s.r().r().r().r() == s,
        s.r() != s && s.r().r() != s && s.r().r().r() != s,
{
    reveal(CubeState::r);
    lemma_cycled4_order(s.cp, 2, 5, 4, 3);
    lemma_twisted4_order(s.co, 2, 5, 4, 3, 1, 2, 1, 2, 3);
    lemma_cycled4_order(s.ep, 3, 5, 7, 4);
    lemma_cycled4_order(s.eo, 3, 5, 7, 4);
}

proof fn lemma_m_order(s: CubeState)
    requires
        s.wf(),
    ensures
        s.m().m().m().m() == s,
        s.m() != s && s.m().m() != s && s.m().m().m() != s,
{
    reveal(CubeState::m);
    lemma_cycled4_order(s.ep, 0, 6, 8, 2);
    lemma_twisted4_order(s.eo, 0, 6, 8, 2, 1, 1, 1, 1, 2);
}

/// Setting the permutations from a coordinate and reading the coordinate
/// gives it back, and the centres agree with the permutations.
pub proof fn lemma_perm_of_coord(s: CubeState, coord: nat)
    requires
        coord < PERM_SIZE,
    ensures
        s.with_perm_coord(coord).perm_coord() == coord,
        s.with_perm_coord(coord).cp.len() == 6,
        is_permutation(s.with_perm_coord(coord).cp),
        s.with_perm_coord(coord).ep.len() == 9,
        is_permutation(s.with_perm_coord(coord).ep),
        s.with_perm_coord(coord).centers < 4,
        s.with_perm_coord(coord).consistent(),
        s.with_perm_coord(coord).corners_in_group(),
{
    lemma_sizes();
    let c = (coord / 2) / EP_SIZE as nat;
    let e = (coord / 2) % EP_SIZE as nat;
    lemma_corner_arrangement(c);
    lemma_rank_of_unrank(e, 9);
}

/// Setting the orientations from a coordinate and reading the coordinate
/// gives it back.
pub proof fn lemma_ori_of_coord(s: CubeState, coord: nat)
    requires
        coord < ORI_SIZE,
    ensures
        s.with_ori_coord(coord).ori_coord() == coord,
        s.with_ori_coord(coord).co.len() == 6,
        is_orientation(s.with_ori_coord(coord).co, 3),
        s.with_ori_coord(coord).eo.len() == 9,
        is_orientation(s.with_ori_coord(coord).eo, 2),
{
    lemma_sizes();
    lemma_ori_rank_of_unrank(coord / EO_SIZE as nat, 6, 3);
    lemma_ori_rank_of_unrank(coord % EO_SIZE as nat, 9, 2);
}

/// Decoding a state number and encoding the result gives the number back.
pub proof fn lemma_encode_of_decode(s: CubeState, state: nat)
    requires
        state < STATE_SIZE,
    ensures
        s.decode(state).wf(),
        s.decode(state).consistent(),
        s.decode(state).corners_in_group(),
        s.decode(state).encode() == state,
{
    lemma_sizes();
    lemma_perm_of_coord(s, state / ORI_SIZE as nat);
    lemma_ori_of_coord(s.with_perm_coord(state / ORI_SIZE as nat), state % ORI_SIZE as nat);
}

/// Encoding a well-formed cube whose centres agree with its permutations
/// and whose corners are arranged as the turns can arrange them, and
/// decoding the number, gives the cube back.
pub proof fn lemma_decode_of_encode(s: CubeState)
    requires
        s.wf(),
        s.consistent(),
        s.corners_in_group(),
    ensures
        s.perm_coord() < PERM_SIZE,
        s.ori_coord() < ORI_SIZE,
        s.encode() < STATE_SIZE,
        s.with_perm_coord(s.perm_coord()) == s,
        s.with_ori_coord(s.ori_coord()) == s,
        s.decode(s.encode()) == s,
{
    lemma_sizes();
    lemma_corner_number(s.cp);
    lemma_unrank_of_rank(s.ep);
    lemma_ori_unrank_of_rank(s.co, 3);
    lemma_ori_unrank_of_rank(s.eo, 2);
    let p = s.perm_coord();
    let h = s.centers as nat / 2;
    assert(p % 2 == h && (p / 2) % 362880 == s.ep_coord() && (p / 2) / 362880 == s.cp_coord() && p
        < 87091200) by (nonlinear_arith)
        requires
            p == s.cp_coord() * 362880 * 2 + s.ep_coord() * 2 + h,
            h < 2,
            s.ep_coord() < 362880,
            s.cp_coord() < 120,
    ;
    let o = s.ori_coord();
    assert(o / 256 == s.co_coord() && o % 256 == s.eo_coord() && o < 62208) by (nonlinear_arith)
        requires
            o == s.co_coord() * 256 + s.eo_coord(),
            s.eo_coord() < 256,
            s.co_coord() < 243,
    ;
    let n = s.encode();
    assert(n / 62208 == p && n % 62208 == o && n < 5417769369600) by (nonlinear_arith)
        requires
            n == p * 62208 + o,
            o < 62208,
            p < 87091200,
    ;
    assert(s.with_perm_coord(p) == s);
    assert(s.with_ori_coord(o) == s);
}

impl Cube {
    /// The solved cube.
    pub fn new() -> (cube: Cube)
        ensures
            cube@ == CubeState::solved(),
            cube@.wf(),
    {
        let cube = Cube { cp: identity(), co: [0; 6], ep: identity(), eo: [0; 9], centers: 0 };
        proof {
            assert(cube.co@ =~= Seq::new(6, |i: int| 0u8));
            assert(cube.eo@ =~= Seq::new(9, |i: int| 0u8));
            lemma_solved();
        }
        cube
    }

    /// Whether the cube is solved.
    pub fn is_solved(&self) -> (solved: bool)
        ensures
            solved == (self@ == CubeState::solved()),
    {
        let home = Cube::new();
        same(&self.cp, &home.cp) && same(&self.co, &home.co) && same(&self.ep, &home.ep) && same(
            &self.eo,
            &home.eo,
        ) && self.centers == 0
    }

    /// A quarter turn of the upper face.
    pub fn u(&mut self)
        ensures
            final(self)@ == old(self)@.u(),
            old(self)@.wf() ==> final(self)@.wf(),
    {
        proof {
            reveal(CubeState::u);
            if self@.wf() {
                lemma_moves_keep_wf(self@);
            }
        }
        cycle4(&mut self.cp, 0, 1, 2, 3);
        cycle4(&mut self.co, 0, 1, 2, 3);
        cycle4(&mut self.ep, 0, 1, 2, 3);
        cycle4(&mut self.eo, 0, 1, 2, 3);
    }

    /// A half turn of the upper face.
    pub fn u2(&mut self)
        ensures
            final(self)@ == old(self)@.u2(),
            old(self)@.wf() ==> final(self)@.wf(),
    {
        self.u();
        self.u();
    }

    /// A quarter turn of the upper face the other way.
    pub fn u_inv(&mut self)
        ensures
            final(self)@ == old(self)@.u_inv(),
            old(self)@.wf() ==> final(self)@.wf(),
    {
        self.u();
        self.u();
        self.u();
    }

    /// A quarter turn of the right face.
    pub fn r(&mut self)
        ensures
            final(self)@ == old(self)@.r(),
            old(self)@.wf() ==> final(self)@.wf(),
    {
        proof {
            reveal(CubeState::r);
            if self@.wf() {
                lemma_moves_keep_wf(self@);
            }
        }
        cycle4(&mut self.cp, 2, 5, 4, 3);
        twist4(&mut self.co, 2, 5, 4, 3, 1, 2, 1, 2, 3);
        cycle4(&mut self.ep, 3, 5, 7, 4);
        cycle4(&mut self.eo, 3, 5, 7, 4);
    }

    /// A half turn of the right face.
    pub fn r2(&mut self)
        ensures
            final(self)@ == old(self)@.r2(),
            old(self)@.wf() ==> final(self)@.wf(),
    {
        self.r();
        self.r();
    }

    /// A quarter turn of the right face the other way.
    pub fn r_inv(&mut self)
        ensures
            final(self)@ == old(self)@.r_inv(),
            old(self)@.wf() ==> final(self)@.wf(),
    {
        self.r();
        self.r();
        self.r();
    }

    /// A quarter turn of the middle layer.
    pub fn m(&mut self)
        ensures
            final(self)@ == old(self)@.m(),
            old(self)@.wf() ==> final(self)@.wf(),
    {
        proof {
            reveal(CubeState::m);
            if self@.wf() {
                lemma_moves_keep_wf(self@);
            }
        }
        cycle4(&mut self.ep, 0, 6, 8, 2);
        twist4(&mut self.eo, 0, 6, 8, 2, 1, 1, 1, 1, 2);
        self.centers = ((self.centers as u16 + 1) % 4) as u8;
    }

    /// A half turn of the middle layer.
    pub fn m2(&mut self)
        ensures
            final(self)@ == old(self)@.m2(),
            old(self)@.wf() ==> final(self)@.wf(),
    {
        self.m();
        self.m();
    }

    /// A quarter turn of the middle layer the other way.
    pub fn m_inv(&mut self)
        ensures
            final(self)@ == old(self)@.m_inv(),
            old(self)@.wf() ==> final(self)@.wf(),
    {
        self.m();
        self.m();
        self.m();
    }

    /// The right face together with the middle layer, a quarter turn.
    pub fn rw(&mut self)
        ensures
            final(self)@ == old(self)@.rw(),
            old(self)@.wf() ==> final(self)@.wf(),
    {
        self.r();
        self.m_inv();
    }

    /// A half turn of the right face together with the middle layer.
    pub fn rw2(&mut self)
        ensures
            final(self)@ == old(self)@.rw2(),
            old(self)@.wf() ==> final(self)@.wf(),
    {
        self.r2();
        self.m2();
    }

    /// A quarter turn of the right face together with the middle layer, the other way.
    pub fn rw_inv(&mut self)
        ensures
            final(self)@ == old(self)@.rw_inv(),
            old(self)@.wf() ==> final(self)@.wf(),
    {
        self.r_inv();
        self.m();
    }

    /// Does a move.
    pub fn turn(&mut self, turn: Turn)
        ensures
            final(self)@ == old(self)@.turned(turn),
            old(self)@.wf() ==> final(self)@.wf(),
    {
        match turn {
            Turn::U => self.u(),
            Turn::U2 => self.u2(),
            Turn::UInv => self.u_inv(),
            Turn::R => self.r(),
            Turn::R2 => self.r2(),
            Turn::RInv => self.r_inv(),
            Turn::M => self.m(),
            Turn::M2 => self.m2(),
            Turn::MInv => self.m_inv(),
            Turn::Rw => self.rw(),
            Turn::Rw2 => self.rw2(),
            Turn::RwInv => self.rw_inv(),
        }
    }

    /// Does the move with the given name. Any name that names no move is
    /// refused and leaves the cube as it is.
    pub fn do_move(&mut self, mv: &str) -> (done: Result<(), InvalidMove>)
        ensures
            match turn_named(mv.spec_bytes()) {
                Some(turn) => done is Ok && final(self)@ == old(self)@.turned(turn),
                None => done is Err && final(self)@ == old(self)@,
            },
            old(self)@.wf() ==> final(self)@.wf(),
    {
        match parse_turn(mv.as_bytes()) {
            Some(turn) => {
                self.turn(turn);
                Ok(())
            },
            None => Err(InvalidMove),
        }
    }

    /// The number of the arrangement of the corners.
    pub fn cp_coord(&self) -> (coord: u32)
        requires
            self@.wf(),
        ensures
            coord == self@.cp_coord(),
            coord < CP_SIZE,
    {
        proof {
            lemma_sizes();
        }
        (encode_permutation(&self.cp) / 6) as u32
    }

    /// The coordinate of the orientations of the corners.
    pub fn co_coord(&self) -> (coord: u32)
        requires
            self@.wf(),
        ensures
            coord == self@.co_coord(),
            coord < CO_SIZE,
    {
        proof {
            lemma_sizes();
        }
        encode_orientation(&self.co, 3)
    }

    /// The coordinate of the places of the edges.
    pub fn ep_coord(&self) -> (coord: u32)
        requires
            self@.wf(),
        ensures
            coord == self@.ep_coord(),
            coord < EP_SIZE,
    {
        proof {
            lemma_sizes();
        }
        encode_permutation(&self.ep) as u32
    }

    /// The coordinate of the orientations of the edges.
    pub fn eo_coord(&self) -> (coord: u32)
        requires
            self@.wf(),
        ensures
            coord == self@.eo_coord(),
            coord < EO_SIZE,
    {
        proof {
            lemma_sizes();
        }
        encode_orientation(&self.eo, 2)
    }

    /// The permutation coordinate.
    pub fn perm_coord(&self) -> (coord: u32)
        requires
            self@.wf(),
        ensures
            coord == self@.perm_coord(),
            coord < PERM_SIZE,
    {
        self.cp_coord() * 362880 * 2 + self.ep_coord() * 2 + self.centers as u32 / 2
    }

    /// The orientation coordinate.
    pub fn ori_coord(&self) -> (coord: u32)
        requires
            self@.wf(),
        ensures
            coord == self@.ori_coord(),
            coord < ORI_SIZE,
    {
        self.co_coord() * 256 + self.eo_coord()
    }

    /// Sets the places of the corners from a coordinate.
    pub fn set_cp_coord(&mut self, coord: u32)
        requires
            coord < CP_SIZE,
        ensures
            final(self)@ == (CubeState { cp: corner_arrangement(coord as nat), ..old(self)@ }),
            is_permutation(final(self).cp@),
            final(self)@.cp_coord() == coord,
    {
        proof {
            lemma_corner_arrangement(coord as nat);
        }
        self.cp = corner_arrangement_at(coord);
    }

    /// The last corner gets the orientation that brings the sum of all to
    /// a multiple of 3.
    pub fn set_co_coord(&mut self, coord: u32)
        requires
            coord < CO_SIZE,
        ensures
            final(self)@ == (CubeState { co: ori_unrank(coord as nat, 6, 3), ..old(self)@ }),
            is_orientation(final(self).co@, 3),
            final(self)@.co_coord() == coord,
    {
        proof {
            lemma_sizes();
        }
        self.co = decode_orientation(coord, 3);
    }

    /// Sets the places of the edges from a coordinate.
    pub fn set_ep_coord(&mut self, coord: u32)
        requires
            coord < EP_SIZE,
        ensures
            final(self)@ == (CubeState { ep: lehmer_unrank(coord as nat, 9), ..old(self)@ }),
            is_permutation(final(self).ep@),
            final(self)@.ep_coord() == coord,
    {
        proof {
            lemma_sizes();
        }
        self.ep = decode_permutation(coord as u64);
    }

    /// The last edge gets the orientation that brings the sum of all to a
    /// multiple of 2.
    pub fn set_eo_coord(&mut self, coord: u32)
        requires
            coord < EO_SIZE,
        ensures
            final(self)@ == (CubeState { eo: ori_unrank(coord as nat, 9, 2), ..old(self)@ }),
            is_orientation(final(self).eo@, 2),
            final(self)@.eo_coord() == coord,
    {
        proof {
            lemma_sizes();
        }
        self.eo = decode_orientation(coord, 2);
    }

    /// Sets the permutations and the centres from a coordinate. The
    /// coordinate holds the two permutations whole, so their signs are
    /// known once they are set, and with them whether the centres are an
    /// odd number of quarter turns away; the coordinate's lowest bit tells
    /// the rest.
    pub fn set_perm_coord(&mut self, coord: u32)
        requires
            coord < PERM_SIZE,
        ensures
            final(self)@ == old(self)@.with_perm_coord(coord as nat),
            final(self)@.perm_coord() == coord,
            final(self)@.consistent(),
            old(self)@.wf() ==> final(self)@.wf(),
    {
        proof {
            lemma_sizes();
            lemma_perm_of_coord(self@, coord as nat);
        }
        let centers_half = coord % 2;
        let ep_coord = (coord / 2) % 362880;
        let cp_coord = (coord / 2) / 362880;

        self.set_cp_coord(cp_coord);
        self.set_ep_coord(ep_coord);

        let cp_parity = parity(&self.cp);
        let ep_parity = parity(&self.ep);

        let centers_parity = (cp_parity + ep_parity) % 2;

        self.centers = centers_half as u8 * 2 + centers_parity;
    }

    /// Sets the orientations from a coordinate.
    pub fn set_ori_coord(&mut self, coord: u32)
        requires
            coord < ORI_SIZE,
        ensures
            final(self)@ == old(self)@.with_ori_coord(coord as nat),
            final(self)@.ori_coord() == coord,
            old(self)@.wf() ==> final(self)@.wf(),
    {
        proof {
            lemma_ori_of_coord(self@, coord as nat);
        }
        self.set_eo_coord(coord % 256);
        self.set_co_coord(coord / 256);
    }

    /// The state number.
    pub fn encode(&self) -> (state: u64)
        requires
            self@.wf(),
        ensures
            state == self@.encode(),
            state < STATE_SIZE,
    {
        self.perm_coord() as u64 * 62208 + self.ori_coord() as u64
    }

    /// Takes the cube to the state with the given number.
    pub fn decode(&mut self, coord: u64)
        requires
            coord < STATE_SIZE,
        ensures
            final(self)@ == old(self)@.decode(coord as nat),
            final(self)@.wf(),
            final(self)@.consistent(),
            final(self)@.encode() == coord,
    {
        proof {
            lemma_encode_of_decode(self@, coord as nat);
        }
        self.set_perm_coord((coord / 62208) as u32);
        self.set_ori_coord((coord % 62208) as u32);
    }

    /// The cube that a pair of coordinates stands for.
    pub fn from(value: CoordCube<'_>) -> (cube: Cube)
        requires
            value.perm < PERM_SIZE,
            value.ori < ORI_SIZE,
        ensures
            cube@ == CubeState::solved().with_perm_coord(value.perm as nat).with_ori_coord(
                value.ori as nat,
            ),
            cube@.wf(),
            cube@.perm_coord() == value.perm,
            cube@.ori_coord() == value.ori,
    {
        let mut cube = Cube::new();
        cube.set_perm_coord(value.perm);
        cube.set_ori_coord(value.ori);
        cube
    }
}

} // verus!
