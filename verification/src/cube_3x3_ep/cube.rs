//! The twelve edges as a permutation, and its rank.

use vstd::prelude::*;
use crate::cycle::{cycle4, cycled4, lemma_cycled4, lemma_cycled4_order, slots4};
use crate::factorial::lemma_fact_values;
use crate::permutation::{
    decode_permutation, encode_permutation, identity, identity_perm, is_permutation, lehmer_rank,
    lehmer_unrank, lemma_identity_perm, lemma_rank_injective, lemma_rank_of_unrank,
    lemma_unrank_of_rank,
};

verus! {

/// The number of edge permutations, `12!`.
pub const EP_SIZE: usize = 479001600;

/// The cube: slot `i` of `ep` holds the edge that sits in place `i`.
#[derive(Debug, PartialEq)]
pub struct Cube {
    pub ep: [u8; 12],
}

/// The edges after a quarter turn of the upper face.
pub open spec fn u_moved(ep: Seq<u8>) -> Seq<u8> {
    cycled4(ep, 0, 1, 2, 3)
}

/// The edges after a quarter turn of the left face.
pub open spec fn l_moved(ep: Seq<u8>) -> Seq<u8> {
    cycled4(ep, 1, 4, 9, 5)
}

/// The edges after a quarter turn of the front face.
pub open spec fn f_moved(ep: Seq<u8>) -> Seq<u8> {
    cycled4(ep, 0, 7, 10, 4)
}

/// The edges after a quarter turn of the right face.
pub open spec fn r_moved(ep: Seq<u8>) -> Seq<u8> {
    cycled4(ep, 3, 6, 11, 7)
}

/// The edges after a quarter turn of the back face.
pub open spec fn b_moved(ep: Seq<u8>) -> Seq<u8> {
    cycled4(ep, 2, 5, 8, 6)
}

/// The edges after a quarter turn of the lower face.
pub open spec fn d_moved(ep: Seq<u8>) -> Seq<u8> {
    cycled4(ep, 8, 9, 10, 11)
}

impl Cube {
    /// The edges are a permutation of `0..12`.
    pub open spec fn wf(&self) -> bool {
        self.ep@.len() == 12 && is_permutation(self.ep@)
    }

    /// The solved cube.
    pub fn new() -> (cube: Self)
        ensures
            cube.ep@ == identity_perm(12),
            cube.wf(),
    {
        proof {
            lemma_identity_perm(12);
        }
        Self { ep: identity() }
    }

    /// A quarter turn of the upper face.
    pub fn u(&mut self)
        ensures
            final(self).ep@ == u_moved(old(self).ep@),
            old(self).wf() ==> final(self).wf(),
    {
        cycle4(&mut self.ep, 0, 1, 2, 3);
    }

    /// A quarter turn of the left face.
    pub fn l(&mut self)
        ensures
            final(self).ep@ == l_moved(old(self).ep@),
            old(self).wf() ==> final(self).wf(),
    {
        cycle4(&mut self.ep, 1, 4, 9, 5);
    }

    /// A quarter turn of the front face.
    pub fn f(&mut self)
        ensures
            final(self).ep@ == f_moved(old(self).ep@),
            old(self).wf() ==> final(self).wf(),
    {
        cycle4(&mut self.ep, 0, 7, 10, 4);
    }

    /// A quarter turn of the right face.
    pub fn r(&mut self)
        ensures
            final(self).ep@ == r_moved(old(self).ep@),
            old(self).wf() ==> final(self).wf(),
    {
        cycle4(&mut self.ep, 3, 6, 11, 7);
    }

    /// A quarter turn of the back face.
    pub fn b(&mut self)
        ensures
            final(self).ep@ == b_moved(old(self).ep@),
            old(self).wf() ==> final(self).wf(),
    {
        cycle4(&mut self.ep, 2, 5, 8, 6);
    }

    /// A quarter turn of the lower face.
    pub fn d(&mut self)
        ensures
            final(self).ep@ == d_moved(old(self).ep@),
            old(self).wf() ==> final(self).wf(),
    {
        cycle4(&mut self.ep, 8, 9, 10, 11);
    }

    /// The rank of the edge permutation.
    pub fn ep_coord(&self) -> (coord: u32)
        requires
            self.wf(),
        ensures
            coord == lehmer_rank(self.ep@),
            coord < EP_SIZE,
    {
        proof {
            lemma_fact_values();
        }
        encode_permutation(&self.ep) as u32
    }

    /// Sets the edges to the permutation with rank `coord`.
    pub fn set_ep_coord(&mut self, coord: u32)
        requires
            coord < EP_SIZE,
        ensures
            final(self).ep@ == lehmer_unrank(coord as nat, 12),
            final(self).wf(),
            final(self).ep_coord_spec() == coord,
    {
        proof {
            lemma_fact_values();
        }
        self.ep = decode_permutation(coord as u64);
    }

    /// The rank of the edge permutation.
    pub open spec fn ep_coord_spec(&self) -> nat {
        lehmer_rank(self.ep@)
    }
}

/// The coordinate that a move takes the coordinate `coord` to, where
/// `moved` tells what the move does to the edges.
pub open spec fn coord_after(moved: spec_fn(Seq<u8>) -> Seq<u8>, coord: nat) -> nat {
    lehmer_rank(moved(lehmer_unrank(coord, 12)))
}

/// The coordinate after a quarter turn of the upper face.
#[verifier::opaque]
pub open spec fn u_coord(coord: nat) -> nat {
    coord_after(|s: Seq<u8>| u_moved(s), coord)
}

/// The coordinate after a quarter turn of the left face.
#[verifier::opaque]
pub open spec fn l_coord(coord: nat) -> nat {
    coord_after(|s: Seq<u8>| l_moved(s), coord)
}

/// The coordinate after a quarter turn of the front face.
#[verifier::opaque]
pub open spec fn f_coord(coord: nat) -> nat {
    coord_after(|s: Seq<u8>| f_moved(s), coord)
}

/// The coordinate after a quarter turn of the right face.
#[verifier::opaque]
pub open spec fn r_coord(coord: nat) -> nat {
    coord_after(|s: Seq<u8>| r_moved(s), coord)
}

/// The coordinate after a quarter turn of the back face.
#[verifier::opaque]
pub open spec fn b_coord(coord: nat) -> nat {
    coord_after(|s: Seq<u8>| b_moved(s), coord)
}

/// The coordinate after a quarter turn of the lower face.
#[verifier::opaque]
pub open spec fn d_coord(coord: nat) -> nat {
    coord_after(|s: Seq<u8>| d_moved(s), coord)
}

/// A quarter turn of a face, done four times, brings the cube back, and
/// fewer quarter turns of one face do not: stated of the coordinate.
pub proof fn lemma_quarter_turn_order(a: int, b: int, c: int, d: int, coord: nat)
    requires
        slots4(12, a, b, c, d),
        coord < EP_SIZE,
    ensures
        ({
            let turn = |x: nat| coord_after(|s: Seq<u8>| cycled4(s, a, b, c, d), x);
            &&& turn(coord) < EP_SIZE
            &&& turn(coord) != coord
            &&& turn(turn(coord)) != coord
            &&& turn(turn(turn(coord))) != coord
            &&& turn(turn(turn(turn(coord)))) == coord
        }),
{
    lemma_fact_values();
    lemma_rank_of_unrank(coord, 12);
    let s0 = lehmer_unrank(coord, 12);
    let s1 = cycled4(s0, a, b, c, d);
    let s2 = cycled4(s1, a, b, c, d);
    let s3 = cycled4(s2, a, b, c, d);
    lemma_cycled4(s0, a, b, c, d);
    lemma_cycled4(s1, a, b, c, d);
    lemma_cycled4(s2, a, b, c, d);
    lemma_cycled4_order(s0, a, b, c, d);
    lemma_unrank_of_rank(s1);
    lemma_unrank_of_rank(s2);
    lemma_unrank_of_rank(s3);
    if lehmer_rank(s1) == coord {
        lemma_rank_injective(s1, s0);
    }
    if lehmer_rank(s2) == coord {
        lemma_rank_injective(s2, s0);
    }
    if lehmer_rank(s3) == coord {
        lemma_rank_injective(s3, s0);
    }
}

/// The six face turns are quarter turns in this sense.
pub proof fn lemma_face_turn_order(coord: nat)
    requires
        coord < EP_SIZE,
    ensures
        u_coord(coord) < EP_SIZE && u_coord(u_coord(u_coord(u_coord(coord)))) == coord,
        l_coord(coord) < EP_SIZE && l_coord(l_coord(l_coord(l_coord(coord)))) == coord,
        f_coord(coord) < EP_SIZE && f_coord(f_coord(f_coord(f_coord(coord)))) == coord,
        r_coord(coord) < EP_SIZE && r_coord(r_coord(r_coord(r_coord(coord)))) == coord,
        b_coord(coord) < EP_SIZE && b_coord(b_coord(b_coord(b_coord(coord)))) == coord,
        d_coord(coord) < EP_SIZE && d_coord(d_coord(d_coord(d_coord(coord)))) == coord,
{
    reveal(u_coord);
    reveal(l_coord);
    reveal(f_coord);
    reveal(r_coord);
    reveal(b_coord);
    reveal(d_coord);
    lemma_quarter_turn_order(0, 1, 2, 3, coord);
    lemma_quarter_turn_order(1, 4, 9, 5, coord);
    lemma_quarter_turn_order(0, 7, 10, 4, coord);
    lemma_quarter_turn_order(3, 6, 11, 7, coord);
    lemma_quarter_turn_order(2, 5, 8, 6, coord);
    lemma_quarter_turn_order(8, 9, 10, 11, coord);
}

} // verus!
