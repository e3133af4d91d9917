//! Fifteen corners as a permutation, the six turns, and the state number.
//!
//! Every turn is a cycle of five corners, an even permutation, so the
//! corners of a puzzle that started solved are an even permutation and
//! their rank fits in `15! / 2`.

use vstd::prelude::*;
use vstd::string::StringSliceAdditionalSpecFns;
use crate::cycle::{cycle5, cycled5, lemma_cycled5, lemma_cycled5_order, same};
use crate::factorial::lemma_fact_values;
use crate::notation::{
    find_token_end, is_space, lemma_token_end, space, token_end, token_is, InvalidMove, UPPER_B,
    UPPER_F, UPPER_L, UPPER_R, UPPER_U,
};
use crate::parity::{
    decode_even_permutation, encode_even_permutation, even, even_rank, even_unrank,
    lemma_even_rank_of_unrank, lemma_even_unrank_of_rank,
};
use crate::permutation::{identity, identity_perm, is_permutation, lemma_identity_perm};

verus! {

/// The number of states, `15! / 2`.
pub const STATE_SIZE: u64 = 653837184000;

#[derive(Debug, Clone, PartialEq)]
pub struct Kilominx {
    pub corners: [u8; 15],
}

/// The six turns.
#[derive(Debug, Clone, Copy, PartialEq, Eq)]
pub enum Turn {
    U,
    L,
    F,
    R,
    BR,
    BL,
}

/// The turn that a name stands for.
pub open spec fn turn_named(name: Seq<u8>) -> Option<Turn> {
    if name == seq![UPPER_U] {
        Some(Turn::U)
    } else if name == seq![UPPER_L] {
        Some(Turn::L)
    } else if name == seq![UPPER_F] {
        Some(Turn::F)
    } else if name == seq![UPPER_R] {
        Some(Turn::R)
    } else if name == seq![UPPER_B, UPPER_R] {
        Some(Turn::BR)
    } else if name == seq![UPPER_B, UPPER_L] {
        Some(Turn::BL)
    } else {
        None
    }
}

/// The corners after a turn.
pub open spec fn turned(corners: Seq<u8>, turn: Turn) -> Seq<u8> {
    match turn {
        Turn::U => cycled5(corners, 0, 1, 2, 3, 4),
        Turn::L => cycled5(corners, 0, 5, 11, 6, 1),
        Turn::F => cycled5(corners, 4, 9, 12, 5, 0),
        Turn::R => cycled5(corners, 3, 8, 13, 9, 4),
        Turn::BR => cycled5(corners, 2, 7, 14, 8, 3),
        Turn::BL => cycled5(corners, 1, 6, 10, 7, 2),
    }
}

/// The corners after the turns that `bytes` names from `pos` on, and
/// whether every name was that of a turn. The first name that is not stops
/// everything.
pub open spec fn after_alg(corners: Seq<u8>, bytes: Seq<u8>, pos: int) -> (Seq<u8>, bool)
    decreases bytes.len() - pos,
{
    if pos < 0 || pos >= bytes.len() {
        (corners, true)
    } else if is_space(bytes[pos]) {
        after_alg(corners, bytes, pos + 1)
    } else {
        let end = token_end(bytes, pos);
        proof {
            lemma_token_end(bytes, pos);
        }
        match turn_named(bytes.subrange(pos, end)) {
            Some(turn) => after_alg(turned(corners, turn), bytes, end),
            None => (corners, false),
        }
    }
}

/// The name of a turn, read from a token.
pub fn parse_turn(bytes: &[u8], start: usize, end: usize) -> (turn: Option<Turn>)
    requires
        start <= end <= bytes@.len(),
    ensures
        turn == turn_named(bytes@.subrange(start as int, end as int)),
{
    let u: [u8; 1] = [UPPER_U];
    let l: [u8; 1] = [UPPER_L];
    let f: [u8; 1] = [UPPER_F];
    let r: [u8; 1] = [UPPER_R];
    let br: [u8; 2] = [UPPER_B, UPPER_R];
    let bl: [u8; 2] = [UPPER_B, UPPER_L];
    proof {
        assert(u@ =~= seq![UPPER_U]);
        assert(l@ =~= seq![UPPER_L]);
        assert(f@ =~= seq![UPPER_F]);
        assert(r@ =~= seq![UPPER_R]);
        assert(br@ =~= seq![UPPER_B, UPPER_R]);
        assert(bl@ =~= seq![UPPER_B, UPPER_L]);
    }
    if token_is(bytes, start, end, &u) {
        Some(Turn::U)
    } else if token_is(bytes, start, end, &l) {
        Some(Turn::L)
    } else if token_is(bytes, start, end, &f) {
        Some(Turn::F)
    } else if token_is(bytes, start, end, &r) {
        Some(Turn::R)
    } else if token_is(bytes, start, end, &br) {
        Some(Turn::BR)
    } else if token_is(bytes, start, end, &bl) {
        Some(Turn::BL)
    } else {
        None
    }
}

/// Every turn keeps the corners a permutation, comes back after five
/// times, and not before.
pub proof fn lemma_turn_order(corners: Seq<u8>, turn: Turn)
    requires
        corners.len() == 15,
        is_permutation(corners),
    ensures
        is_permutation(turned(corners, turn)),
        turned(corners, turn).len() == 15,
        turned(corners, turn) != corners,
        turned(turned(corners, turn), turn) != corners,
        turned(turned(turned(corners, turn), turn), turn) != corners,
        turned(turned(turned(turned(corners, turn), turn), turn), turn) != corners,
        turned(turned(turned(turned(turned(corners, turn), turn), turn), turn), turn) == corners,
{
    match turn {
        Turn::U => {
            lemma_cycled5(corners, 0, 1, 2, 3, 4);
            lemma_cycled5_order(corners, 0, 1, 2, 3, 4);
        },
        Turn::L => {
            lemma_cycled5(corners, 0, 5, 11, 6, 1);
            lemma_cycled5_order(corners, 0, 5, 11, 6, 1);
        },
        Turn::F => {
            lemma_cycled5(corners, 4, 9, 12, 5, 0);
            lemma_cycled5_order(corners, 4, 9, 12, 5, 0);
        },
        Turn::R => {
            lemma_cycled5(corners, 3, 8, 13, 9, 4);
            lemma_cycled5_order(corners, 3, 8, 13, 9, 4);
        },
        Turn::BR => {
            lemma_cycled5(corners, 2, 7, 14, 8, 3);
            lemma_cycled5_order(corners, 2, 7, 14, 8, 3);
        },
        Turn::BL => {
            lemma_cycled5(corners, 1, 6, 10, 7, 2);
            lemma_cycled5_order(corners, 1, 6, 10, 7, 2);
        },
    }
}

impl Kilominx {
    /// The corners are a permutation of `0..15`.
    pub open spec fn wf(&self) -> bool {
        is_permutation(self.corners@)
    }

    /// The solved puzzle.
    pub fn new() -> (minx: Self)
        ensures
            minx.corners@ == identity_perm(15),
            minx.wf(),
    {
        proof {
            lemma_identity_perm(15);
        }
        Self { corners: identity() }
    }

    /// Whether the puzzle is solved.
    pub fn is_solved(&self) -> (solved: bool)
        ensures
            solved == (self.corners@ == identity_perm(15)),
    {
        let home: [u8; 15] = identity();
        same(&self.corners, &home)
    }

    /// A fifth of a turn of the upper face.
    pub fn u(&mut self)
        ensures
            final(self).corners@ == turned(old(self).corners@, Turn::U),
            old(self).wf() ==> final(self).wf(),
    {
        cycle5(&mut self.corners, 0, 1, 2, 3, 4);
    }

    /// A fifth of a turn of the left face.
    pub fn l(&mut self)
        ensures
            final(self).corners@ == turned(old(self).corners@, Turn::L),
            old(self).wf() ==> final(self).wf(),
    {
        cycle5(&mut self.corners, 0, 5, 11, 6, 1);
    }

    /// A fifth of a turn of the front face.
    pub fn f(&mut self)
        ensures
            final(self).corners@ == turned(old(self).corners@, Turn::F),
            old(self).wf() ==> final(self).wf(),
    {
        cycle5(&mut self.corners, 4, 9, 12, 5, 0);
    }

    /// A fifth of a turn of the right face.
    pub fn r(&mut self)
        ensures
            final(self).corners@ == turned(old(self).corners@, Turn::R),
            old(self).wf() ==> final(self).wf(),
    {
        cycle5(&mut self.corners, 3, 8, 13, 9, 4);
    }

    /// A fifth of a turn of the back right face.
    pub fn br(&mut self)
        ensures
            final(self).corners@ == turned(old(self).corners@, Turn::BR),
            old(self).wf() ==> final(self).wf(),
    {
        cycle5(&mut self.corners, 2, 7, 14, 8, 3);
    }

    /// A fifth of a turn of the back left face.
    pub fn bl(&mut self)
        ensures
            final(self).corners@ == turned(old(self).corners@, Turn::BL),
            old(self).wf() ==> final(self).wf(),
    {
        cycle5(&mut self.corners, 1, 6, 10, 7, 2);
    }

    /// Does one turn.
    pub fn turn(&mut self, turn: Turn)
        ensures
            final(self).corners@ == turned(old(self).corners@, turn),
            old(self).wf() ==> final(self).wf(),
    {
        match turn {
            Turn::U => self.u(),
            Turn::L => self.l(),
            Turn::F => self.f(),
            Turn::R => self.r(),
            Turn::BR => self.br(),
            Turn::BL => self.bl(),
        }
    }

    /// Does the turn named `U`, `L`, `F`, `R`, `BR` or `BL`. Any other
    /// name is refused and leaves the puzzle as it is.
    pub fn do_move(&mut self, mv: &str) -> (done: Result<(), InvalidMove>)
        ensures
            match turn_named(mv.spec_bytes()) {
                Some(turn) => done is Ok && final(self).corners@ == turned(
                    old(self).corners@,
                    turn,
                ),
                None => done is Err && final(self).corners@ == old(self).corners@,
            },
            old(self).wf() ==> final(self).wf(),
    {
        let bytes = mv.as_bytes();
        assert(bytes@.subrange(0, bytes@.len() as int) =~= bytes@);
        match parse_turn(bytes, 0, bytes.len()) {
            Some(turn) => {
                self.turn(turn);
                Ok(())
            },
            None => Err(InvalidMove),
        }
    }

    /// Does the turns named in `alg`, which are separated by white space,
    /// one after the other. The first name that names no turn is refused:
    /// the turns before it have been done, those after it are not.
    pub fn do_alg(&mut self, alg: &str) -> (done: Result<(), InvalidMove>)
        ensures
            final(self).corners@ == after_alg(old(self).corners@, alg.spec_bytes(), 0).0,
            done is Ok <==> after_alg(old(self).corners@, alg.spec_bytes(), 0).1,
            old(self).wf() ==> final(self).wf(),
    {
        let bytes = alg.as_bytes();
        let mut pos: usize = 0;
        while pos < bytes.len()
            invariant
                pos <= bytes@.len(),
                bytes@ == alg.spec_bytes(),
                after_alg(self.corners@, bytes@, pos as int) == after_alg(
                    old(self).corners@,
                    bytes@,
                    0,
                ),
                old(self).wf() ==> self.wf(),
            decreases bytes@.len() - pos,
        {
            if space(bytes[pos]) {
                pos = pos + 1;
            } else {
                let end = find_token_end(bytes, pos);
                proof {
                    lemma_token_end(bytes@, pos as int);
                }
                match parse_turn(bytes, pos, end) {
                    Some(turn) => {
                        self.turn(turn);
                        pos = end;
                    },
                    None => {
                        return Err(InvalidMove);
                    },
                }
            }
        }
        Ok(())
    }

    /// The state number: the rank of the corners, without its lowest
    /// digit.
    pub fn encode(&self) -> (state: u64)
        requires
            self.wf(),
        ensures
            state == even_rank(self.corners@),
            state < STATE_SIZE,
    {
        proof {
            lemma_fact_values();
        }
        encode_even_permutation(&self.corners)
    }

    /// Takes the puzzle to the state with the given number.
    pub fn decode(&mut self, coord: u64)
        requires
            coord < STATE_SIZE,
        ensures
            final(self).corners@ == even_unrank(coord as nat, 15),
            final(self).wf(),
            even(final(self).corners@),
            even_rank(final(self).corners@) == coord,
    {
        proof {
            lemma_fact_values();
        }
        self.corners = decode_even_permutation(coord);
    }
}

/// Encoding an even state and decoding the number gives the state back.
pub proof fn lemma_decode_of_encode(corners: Seq<u8>)
    requires
        corners.len() == 15,
        is_permutation(corners),
        even(corners),
    ensures
        even_rank(corners) < STATE_SIZE,
        even_unrank(even_rank(corners), 15) == corners,
{
    lemma_fact_values();
    lemma_even_unrank_of_rank(corners);
}

/// Decoding a state number and encoding the state gives the number back.
pub proof fn lemma_encode_of_decode(state: nat)
    requires
        state < STATE_SIZE,
    ensures
        is_permutation(even_unrank(state, 15)),
        even(even_unrank(state, 15)),
        even_rank(even_unrank(state, 15)) == state,
{
    lemma_fact_values();
    lemma_even_rank_of_unrank(state, 15);
}

} // verus!
