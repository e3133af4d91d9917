//! The tables of the three moves over the edge and the corner coordinate.
//!
//! U and R leave the last two edges where they are, so what they do to the
//! edge coordinate does not depend on the sign of the edge permutation. F2
//! moves both of them, and has one table for each sign.

use vstd::prelude::*;
use crate::cube_3x3_u_f2_r::cube::{
    lemma_moves_keep_wf, lemma_quarter_turns, lemma_sizes, Cube, CubeState, CORNERS_SIZE, CO_SIZE,
    EP_SIZE,
};
use crate::cycle::{cycled4, lemma_cycled4, slots4};
use crate::orientation::{lemma_ori_rank_of_unrank, lemma_ori_unrank_of_rank};
use crate::parity::{
    even, even_rank, even_unrank, lemma_even_rank_of_unrank, lemma_even_unrank_of_rank,
    lemma_swap_last_two, lemma_swap_last_two_twice, swap_last_two,
};
use crate::permutation::{is_permutation, lemma_rank_of_unrank, lemma_unrank_of_rank};
use crate::table::{build_table, tabulates};

verus! {

pub struct TranspositionTables {
    pub u_edges: Vec<u32>,
    pub u_corners: Vec<u32>,
    pub r_edges: Vec<u32>,
    pub r_corners: Vec<u32>,
    pub f2_edges_even: Vec<u32>,
    pub f2_edges_odd: Vec<u32>,
    pub f2_corners: Vec<u32>,
}

/// The solved cube with the sign on record set to odd.
pub open spec fn odd_base() -> CubeState {
    CubeState { is_even_perm: false, ..CubeState::solved() }
}

/// The edge coordinate after U.
#[verifier::opaque]
pub open spec fn u_edges(coord: nat) -> nat {
    CubeState::solved().with_ep_coord(coord).u().ep_coord()
}

/// The edge coordinate after R.
#[verifier::opaque]
pub open spec fn r_edges(coord: nat) -> nat {
    CubeState::solved().with_ep_coord(coord).r().ep_coord()
}

/// The edge coordinate after F2, where the edge permutation is even.
#[verifier::opaque]
pub open spec fn f2_edges_even(coord: nat) -> nat {
    CubeState::solved().with_ep_coord(coord).f2().ep_coord()
}

/// The edge coordinate after F2, where the edge permutation is odd.
#[verifier::opaque]
pub open spec fn f2_edges_odd(coord: nat) -> nat {
    odd_base().with_ep_coord(coord).f2().ep_coord()
}

/// The corner coordinate after U.
#[verifier::opaque]
pub open spec fn u_corners(coord: nat) -> nat {
    CubeState::solved().with_corners_coord(coord).u().corners_coord()
}

/// The corner coordinate after R.
#[verifier::opaque]
pub open spec fn r_corners(coord: nat) -> nat {
    CubeState::solved().with_corners_coord(coord).r().corners_coord()
}

/// The corner coordinate after F2.
#[verifier::opaque]
pub open spec fn f2_corners(coord: nat) -> nat {
    CubeState::solved().with_corners_coord(coord).f2().corners_coord()
}

/// The edge coordinate after a quarter turn of the upper face, worked out on the
/// cube itself.
pub fn u_edges_entry(coord: u32) -> (next: u32)
    requires
        coord < EP_SIZE,
    ensures
        next == u_edges(coord as nat),
        next < EP_SIZE,
{
    proof {
        reveal(u_edges);
    }
    let mut cube = Cube::new();
    cube.set_ep_coord(coord);
    cube.u();
    cube.ep_coord()
}

/// The edge coordinate after a quarter turn of the right face, worked out on the
/// cube itself.
pub fn r_edges_entry(coord: u32) -> (next: u32)
    requires
        coord < EP_SIZE,
    ensures
        next == r_edges(coord as nat),
        next < EP_SIZE,
{
    proof {
        reveal(r_edges);
    }
    let mut cube = Cube::new();
    cube.set_ep_coord(coord);
    cube.r();
    cube.ep_coord()
}

/// The edge coordinate of an even cube after a half turn of the front face, worked out on the
/// cube itself.
pub fn f2_edges_even_entry(coord: u32) -> (next: u32)
    requires
        coord < EP_SIZE,
    ensures
        next == f2_edges_even(coord as nat),
        next < EP_SIZE,
{
    proof {
        reveal(f2_edges_even);
    }
    let mut cube = Cube::new();
    cube.set_ep_coord(coord);
    cube.f2();
    cube.ep_coord()
}

/// The edge coordinate of an odd cube after a half turn of the front face, worked out on the
/// cube itself.
pub fn f2_edges_odd_entry(coord: u32) -> (next: u32)
    requires
        coord < EP_SIZE,
    ensures
        next == f2_edges_odd(coord as nat),
        next < EP_SIZE,
{
    proof {
        reveal(f2_edges_odd);
    }
    let mut cube = Cube::new();
    cube.is_even_perm = false;
    cube.set_ep_coord(coord);
    cube.f2();
    cube.ep_coord()
}

/// The corner coordinate after a quarter turn of the upper face, worked out on the
/// cube itself.
pub fn u_corners_entry(coord: u32) -> (next: u32)
    requires
        coord < CORNERS_SIZE,
    ensures
        next == u_corners(coord as nat),
        next < CORNERS_SIZE,
{
    proof {
        reveal(u_corners);
    }
    let mut cube = Cube::new();
    cube.set_corners_coord(coord);
    cube.u();
    cube.corners_coord()
}

/// The corner coordinate after a quarter turn of the right face, worked out on the
/// cube itself.
pub fn r_corners_entry(coord: u32) -> (next: u32)
    requires
        coord < CORNERS_SIZE,
    ensures
        next == r_corners(coord as nat),
        next < CORNERS_SIZE,
{
    proof {
        reveal(r_corners);
    }
    let mut cube = Cube::new();
    cube.set_corners_coord(coord);
    cube.r();
    cube.corners_coord()
}

/// The corner coordinate after a half turn of the front face, worked out on the
/// cube itself.
pub fn f2_corners_entry(coord: u32) -> (next: u32)
    requires
        coord < CORNERS_SIZE,
    ensures
        next == f2_corners(coord as nat),
        next < CORNERS_SIZE,
{
    proof {
        reveal(f2_corners);
    }
    let mut cube = Cube::new();
    cube.set_corners_coord(coord);
    cube.f2();
    cube.corners_coord()
}

impl TranspositionTables {
    /// Each table holds, for every coordinate, the coordinate after its
    /// move.
    pub open spec fn wf(&self) -> bool {
        &&& tabulates(self.u_edges@, EP_SIZE as nat, |c: nat| u_edges(c))
        &&& tabulates(self.u_corners@, CORNERS_SIZE as nat, |c: nat| u_corners(c))
        &&& tabulates(self.r_edges@, EP_SIZE as nat, |c: nat| r_edges(c))
        &&& tabulates(self.r_corners@, CORNERS_SIZE as nat, |c: nat| r_corners(c))
        &&& tabulates(self.f2_edges_even@, EP_SIZE as nat, |c: nat| f2_edges_even(c))
        &&& tabulates(self.f2_edges_odd@, EP_SIZE as nat, |c: nat| f2_edges_odd(c))
        &&& tabulates(self.f2_corners@, CORNERS_SIZE as nat, |c: nat| f2_corners(c))
    }

    /// Builds the seven tables.
    pub fn new() -> (tables: Self)
        ensures
            tables.wf(),
    {
        let u_corners = build_table(CORNERS_SIZE, u_corners_entry);
        let r_corners = build_table(CORNERS_SIZE, r_corners_entry);
        let f2_corners = build_table(CORNERS_SIZE, f2_corners_entry);
        let u_edges = build_table(EP_SIZE, u_edges_entry);
        let r_edges = build_table(EP_SIZE, r_edges_entry);
        let f2_edges_even = build_table(EP_SIZE, f2_edges_even_entry);
        let f2_edges_odd = build_table(EP_SIZE, f2_edges_odd_entry);
        Self { u_edges, u_corners, r_edges, r_corners, f2_edges_even, f2_edges_odd, f2_corners }
    }
}

/// A cycle that leaves the last two edges alone does to the edge
/// coordinate the same thing whatever the sign of the permutation.
pub proof fn lemma_edge_cycle_ignores_sign(p: Seq<u8>, a: int, b: int, c: int, d: int)
    requires
        p.len() == 9,
        is_permutation(p),
        slots4(7, a, b, c, d),
    ensures
        even_rank(cycled4(even_unrank(even_rank(p), 9), a, b, c, d)) == even_rank(
            cycled4(p, a, b, c, d),
        ),
{
    lemma_even_unrank_of_rank(p);
    lemma_cycled4(p, a, b, c, d);
    let q = cycled4(p, a, b, c, d);
    assert(cycled4(swap_last_two(p), a, b, c, d) =~= swap_last_two(q));
    lemma_swap_last_two(q);
}

/// The edge tables follow the cube: looking a move up at the edge
/// coordinate of a cube gives the edge coordinate of the cube after the
/// move. For F2 the sign on record, which has to be right, picks the table.
pub proof fn lemma_edges_follow(s: CubeState)
    requires
        s.wf(),
    ensures
        s.ep_coord() < EP_SIZE,
        u_edges(s.ep_coord()) == s.u().ep_coord(),
        r_edges(s.ep_coord()) == s.r().ep_coord(),
        s.is_even_perm == even(s.ep) ==> s.f2().ep_coord() == if s.is_even_perm {
            f2_edges_even(s.ep_coord())
        } else {
            f2_edges_odd(s.ep_coord())
        },
{
    reveal(u_edges);
    reveal(r_edges);
    reveal(f2_edges_even);
    reveal(f2_edges_odd);
    lemma_sizes();
    lemma_edge_cycle_ignores_sign(s.ep, 0, 1, 2, 3);
    lemma_edge_cycle_ignores_sign(s.ep, 3, 6, 5, 4);
    lemma_even_unrank_of_rank(s.ep);
    lemma_swap_last_two_twice(s.ep);
}

/// The corner tables follow the cube.
pub proof fn lemma_corners_follow(s: CubeState)
    requires
        s.wf(),
    ensures
        s.corners_coord() < CORNERS_SIZE,
        u_corners(s.corners_coord()) == s.u().corners_coord(),
        r_corners(s.corners_coord()) == s.r().corners_coord(),
        f2_corners(s.corners_coord()) == s.f2().corners_coord(),
{
    reveal(u_corners);
    reveal(r_corners);
    reveal(f2_corners);
    lemma_sizes();
    lemma_unrank_of_rank(s.cp);
    lemma_ori_unrank_of_rank(s.co, 3);
    let c = s.corners_coord();
    assert(c / 729 == s.cp_coord() && c % 729 == s.co_coord()) by (nonlinear_arith)
        requires
            c == s.cp_coord() * 729 + s.co_coord(),
            s.co_coord() < 729,
    ;
    assert(c < CORNERS_SIZE) by (nonlinear_arith)
        requires
            c == s.cp_coord() * 729 + s.co_coord(),
            s.co_coord() < 729,
            s.cp_coord() < 5040,
    ;
}

/// Four times U, or four times R, brings the edge coordinate back.
pub proof fn lemma_edges_order(coord: nat)
    requires
        coord < EP_SIZE,
    ensures
        u_edges(coord) < EP_SIZE,
        u_edges(u_edges(coord)) < EP_SIZE,
        u_edges(u_edges(u_edges(coord))) < EP_SIZE,
        u_edges(u_edges(u_edges(u_edges(coord)))) == coord,
        r_edges(coord) < EP_SIZE,
        r_edges(r_edges(coord)) < EP_SIZE,
        r_edges(r_edges(r_edges(coord))) < EP_SIZE,
        r_edges(r_edges(r_edges(r_edges(coord)))) == coord,
{
    lemma_sizes();
    lemma_even_rank_of_unrank(coord, 9);
    let s = CubeState::solved().with_ep_coord(coord);
    crate::orientation::lemma_zeros(CubeState::solved().co, 3);
    crate::permutation::lemma_identity_perm(7);
    lemma_moves_keep_wf(s);
    lemma_moves_keep_wf(s.u());
    lemma_moves_keep_wf(s.u().u());
    lemma_moves_keep_wf(s.r());
    lemma_moves_keep_wf(s.r().r());
    lemma_edges_follow(s);
    lemma_edges_follow(s.u());
    lemma_edges_follow(s.u().u());
    lemma_edges_follow(s.u().u().u());
    lemma_edges_follow(s.r());
    lemma_edges_follow(s.r().r());
    lemma_edges_follow(s.r().r().r());
    lemma_quarter_turns(s);
}

/// Four times U, or four times R, brings the corner coordinate back.
pub proof fn lemma_corners_order(coord: nat)
    requires
        coord < CORNERS_SIZE,
    ensures
        u_corners(coord) < CORNERS_SIZE,
        u_corners(u_corners(coord)) < CORNERS_SIZE,
        u_corners(u_corners(u_corners(coord))) < CORNERS_SIZE,
        u_corners(u_corners(u_corners(u_corners(coord)))) == coord,
        r_corners(coord) < CORNERS_SIZE,
        r_corners(r_corners(coord)) < CORNERS_SIZE,
        r_corners(r_corners(r_corners(coord))) < CORNERS_SIZE,
        r_corners(r_corners(r_corners(r_corners(coord)))) == coord,
{
    lemma_sizes();
    lemma_rank_of_unrank(coord / CO_SIZE as nat, 7);
    lemma_ori_rank_of_unrank(coord % CO_SIZE as nat, 7, 3);
    crate::permutation::lemma_identity_perm(9);
    let s = CubeState::solved().with_corners_coord(coord);
    lemma_moves_keep_wf(s);
    lemma_moves_keep_wf(s.u());
    lemma_moves_keep_wf(s.u().u());
    lemma_moves_keep_wf(s.r());
    lemma_moves_keep_wf(s.r().r());
    lemma_corners_follow(s);
    lemma_corners_follow(s.u());
    lemma_corners_follow(s.u().u());
    lemma_corners_follow(s.u().u().u());
    lemma_corners_follow(s.r());
    lemma_corners_follow(s.r().r());
    lemma_corners_follow(s.r().r().r());
    lemma_quarter_turns(s);
}

} // verus!
