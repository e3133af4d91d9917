//! The cube as piece vectors, its moves, and its coordinates.

use vstd::prelude::*;
use crate::counting::{count_below, count_below_upto, lemma_count_below_upto};
use crate::cycle::{cycle4, cycled4, lemma_cycled4, lemma_cycled4_order};
use crate::factorial::lemma_fact_values;
use crate::multiset::{
    as_counts, counts_of, decode_multiset, encode_multiset, fact_product_from, is_arrangement,
    lemma_arrangements_closed_form, lemma_multiset_rank_of_unrank, lemma_multiset_unrank_of_rank,
    lemma_rearranged_arrangement, multinomial, multiset_rank, multiset_unrank, occurrences, sum,
    sum_upto,
};
use crate::permutation::{
    decode_permutation, encode_permutation, identity, identity_perm, is_permutation, lehmer_rank,
    lehmer_unrank, lemma_identity_perm, lemma_rank_of_unrank, lemma_unrank_of_rank,
};

verus! {

/// The number of arrangements of the edges, `10!`.
pub const EDGES_SIZE: u32 = 3628800;

/// The number of arrangements of the centres, `10! / (4! 2! 2! 2!)`.
pub const CENTERS_SIZE: u32 = 18900;

/// The number of coordinates of centres and corners together.
pub const CENTERS_CORNERS_SIZE: u32 = 75600;

pub const STATE_SIZE: u64 = 274337280000;

#[derive(Debug, Clone, Copy, PartialEq)]
pub struct Cube {
    pub corners: u8,
    pub edges: [u8; 10],
    pub centers: [u8; 10],
}

/// What a cube holds, as mathematical values.
pub struct CubeState {
    pub corners: u8,
    pub edges: Seq<u8>,
    pub centers: Seq<u8>,
}

impl View for Cube {
    type V = CubeState;

    open spec fn view(&self) -> CubeState {
        CubeState { corners: self.corners, edges: self.edges@, centers: self.centers@ }
    }
}

/// The number of centre pieces of each colour.
pub open spec fn center_counts() -> Seq<nat> {
    seq![4nat, 2, 2, 2]
}

/// The colours of the centres of the solved cube, place by place.
pub open spec fn solved_centers() -> Seq<u8> {
    seq![0u8, 0, 0, 0, 1, 1, 2, 2, 3, 3]
}

/// The number of centre pieces of each colour.
pub fn center_sizes() -> (sizes: [u8; 4])
    ensures
        as_counts(sizes@) == center_counts(),
{
    let sizes: [u8; 4] = [4, 2, 2, 2];
    assert(as_counts(sizes@) =~= center_counts());
    sizes
}

/// The sizes are what their names say.
pub proof fn lemma_sizes()
    ensures
        EDGES_SIZE == crate::factorial::fact(10),
        sum(center_counts()) == 10,
        multinomial(center_counts()) == CENTERS_SIZE,
        CENTERS_CORNERS_SIZE == CENTERS_SIZE * 4,
        STATE_SIZE == EDGES_SIZE * CENTERS_CORNERS_SIZE,
{
    reveal_with_fuel(sum_upto, 5);
    lemma_fact_values();
    lemma_arrangements_closed_form(center_counts(), 10);
    let p4 = fact_product_from(center_counts(), 4);
    let p3 = fact_product_from(center_counts(), 3);
    let p2 = fact_product_from(center_counts(), 2);
    let p1 = fact_product_from(center_counts(), 1);
    let p0 = fact_product_from(center_counts(), 0);
    assert(p4 == 1);
    assert(p3 == crate::factorial::fact(2) * p4);
    assert(p2 == crate::factorial::fact(2) * p3);
    assert(p1 == crate::factorial::fact(2) * p2);
    assert(p0 == crate::factorial::fact(4) * p1);
    assert(p0 == 192) by (nonlinear_arith)
        requires
            p4 == 1,
            p3 == 2 * p4,
            p2 == 2 * p3,
            p1 == 2 * p2,
            p0 == 24 * p1,
    ;
    let a = crate::multiset::arrangements(center_counts(), 10);
    assert(a * 192 == 3628800);
    assert(a == 18900) by (nonlinear_arith)
        requires
            a * 192 == 3628800,
    ;
}

impl CubeState {
    /// The corners are turned by less than a full turn, the edges are a
    /// permutation, and the centres are an arrangement of the four
    /// colours.
    pub open spec fn wf(self) -> bool {
        &&& self.corners < 4
        &&& self.edges.len() == 10 && is_permutation(self.edges)
        &&& self.centers.len() == 10 && is_arrangement(self.centers, center_counts())
    }

    /// The solved cube.
    pub open spec fn solved() -> CubeState {
        CubeState { corners: 0, edges: identity_perm(10), centers: solved_centers() }
    }

    /// A quarter turn of the upper layer: the eight edge pieces in it move
    /// on by two places, the four centre pieces by one.
    #[verifier::opaque]
    pub open spec fn u(self) -> CubeState {
        CubeState {
            corners: ((self.corners + 1) % 4) as u8,
            edges: cycled4(cycled4(self.edges, 0, 2, 4, 6), 1, 3, 5, 7),
            centers: cycled4(self.centers, 0, 1, 2, 3),
        }
    }

    /// A quarter turn of the upper layer the other way.
    #[verifier::opaque]
    pub open spec fn uinv(self) -> CubeState {
        CubeState {
            corners: ((self.corners + 3) % 4) as u8,
            edges: cycled4(cycled4(self.edges, 0, 6, 4, 2), 1, 7, 5, 3),
            centers: cycled4(self.centers, 0, 3, 2, 1),
        }
    }

    /// A quarter turn of the inner layer on the right: four edge pieces
    /// move in a cycle, and the eight centre pieces in the layer move on by
    /// two places.
    #[verifier::opaque]
    pub open spec fn r(self) -> CubeState {
        CubeState {
            edges: cycled4(self.edges, 0, 5, 9, 8),
            centers: cycled4(cycled4(self.centers, 2, 8, 6, 4), 3, 9, 7, 5),
            ..self
        }
    }

    /// A quarter turn of the inner layer on the right the other way.
    #[verifier::opaque]
    pub open spec fn rinv(self) -> CubeState {
        CubeState {
            edges: cycled4(self.edges, 0, 8, 9, 5),
            centers: cycled4(cycled4(self.centers, 2, 4, 6, 8), 3, 5, 7, 9),
            ..self
        }
    }

    /// The coordinate of the edges.
    pub open spec fn edge_coord(self) -> nat {
        lehmer_rank(self.edges)
    }

    /// The coordinate of the centres.
    pub open spec fn center_coord(self) -> nat {
        multiset_rank(self.centers, 4)
    }

    /// The coordinate of centres and corners: the centres in the higher
    /// place.
    pub open spec fn center_corner_coord(self) -> nat {
        self.center_coord() * 4 + self.corners as nat
    }

    /// The state number: edges, then centres and corners.
    pub open spec fn encode(self) -> nat {
        self.edge_coord() * CENTERS_CORNERS_SIZE as nat + self.center_corner_coord()
    }

    /// The state with the edges set from a coordinate.
    pub open spec fn with_edge_coord(self, coord: nat) -> CubeState {
        CubeState { edges: lehmer_unrank(coord, 10), ..self }
    }

    /// The state with the centres and the corners set from a coordinate.
    pub open spec fn with_center_corner_coord(self, coord: nat) -> CubeState {
        CubeState {
            corners: (coord % 4) as u8,
            centers: multiset_unrank(coord / 4, center_counts(), 10),
            ..self
        }
    }

    /// The state with number `state`.
    pub open spec fn decode(state: nat) -> CubeState {
        CubeState::solved().with_edge_coord(
            state / CENTERS_CORNERS_SIZE as nat,
        ).with_center_corner_coord(state % CENTERS_CORNERS_SIZE as nat)
    }
}

/// The solved cube is well-formed, and its number is 0.
pub proof fn lemma_solved()
    ensures
        CubeState::solved().wf(),
{
    let s = CubeState::solved();
    lemma_identity_perm(10);
    let c = s.centers;
    assert forall|x: int| 0 <= x <= 4 implies #[trigger] count_below(c, x) == sum_upto(
        center_counts(),
        x as nat,
    ) by {
        lemma_count_below_upto(c, x, 10);
        assert(c.take(10) =~= c);
        reveal_with_fuel(count_below_upto, 11);
        reveal_with_fuel(sum_upto, 5);
        if x == 0 {
        } else if x == 1 {
        } else if x == 2 {
        } else if x == 3 {
        } else {
        }
    }
    reveal_with_fuel(sum_upto, 5);
    assert forall|g: int| 0 <= g < 4 implies #[trigger] occurrences(c, g) == center_counts()[g] by {
        assert(count_below(c, g) == sum_upto(center_counts(), g as nat));
        assert(count_below(c, g + 1) == sum_upto(center_counts(), (g + 1) as nat));
    }
}

/// The moves keep a well-formed cube well-formed.
pub proof fn lemma_moves_keep_wf(s: CubeState)
    requires
        s.wf(),
    ensures
        s.u().wf(),
        s.uinv().wf(),
        s.r().wf(),
        s.rinv().wf(),
{
    reveal(CubeState::u);
    reveal(CubeState::uinv);
    reveal(CubeState::r);
    reveal(CubeState::rinv);
    lemma_cycled4(s.edges, 0, 2, 4, 6);
    lemma_cycled4(cycled4(s.edges, 0, 2, 4, 6), 1, 3, 5, 7);
    lemma_cycled4(s.centers, 0, 1, 2, 3);
    lemma_cycled4(s.edges, 0, 6, 4, 2);
    lemma_cycled4(cycled4(s.edges, 0, 6, 4, 2), 1, 7, 5, 3);
    lemma_cycled4(s.centers, 0, 3, 2, 1);
    lemma_cycled4(s.edges, 0, 5, 9, 8);
    lemma_cycled4(s.centers, 2, 8, 6, 4);
    lemma_cycled4(cycled4(s.centers, 2, 8, 6, 4), 3, 9, 7, 5);
    lemma_cycled4(s.edges, 0, 8, 9, 5);
    lemma_cycled4(s.centers, 2, 4, 6, 8);
    lemma_cycled4(cycled4(s.centers, 2, 4, 6, 8), 3, 5, 7, 9);
    lemma_rearranged_arrangement(s.centers, s.u().centers, center_counts());
    lemma_rearranged_arrangement(s.centers, s.uinv().centers, center_counts());
    lemma_rearranged_arrangement(s.centers, s.r().centers, center_counts());
    lemma_rearranged_arrangement(s.centers, s.rinv().centers, center_counts());
}

/// Each move undoes the one the other way, and comes back after four
/// times and not before.
pub proof fn lemma_quarter_turns(s: CubeState)
    requires
        s.wf(),
    ensures
        s.u().uinv() == s,
        s.uinv().u() == s,
        s.r().rinv() == s,
        s.rinv().r() == s,
        s.u().u().u().u() == s,
        s.r().r().r().r() == s,
        s.u().u().u() == s.uinv(),
        s.r().r().r() == s.rinv(),
        s.u() != s && s.u().u() != s && s.uinv() != s,
        s.r() != s && s.r().r() != s && s.rinv() != s,
{
    reveal(CubeState::u);
    reveal(CubeState::uinv);
    reveal(CubeState::r);
    reveal(CubeState::rinv);
    lemma_cycled4_order(s.edges, 0, 5, 9, 8);
    assert(s.u().uinv().edges =~= s.edges);
    assert(s.u().uinv().centers =~= s.centers);
    assert(s.uinv().u().edges =~= s.edges);
    assert(s.uinv().u().centers =~= s.centers);
    assert(s.r().rinv().edges =~= s.edges);
    assert(s.r().rinv().centers =~= s.centers);
    assert(s.rinv().r().edges =~= s.edges);
    assert(s.rinv().r().centers =~= s.centers);
    assert(s.u().u().u().edges =~= s.uinv().edges);
    assert(s.u().u().u().centers =~= s.uinv().centers);
    assert(s.r().r().r().edges =~= s.rinv().edges);
    assert(s.r().r().r().centers =~= s.rinv().centers);
    assert(s.u().u().u().u().edges =~= s.edges);
    assert(s.u().u().u().u().centers =~= s.centers);
    assert(s.r().r().r().r().edges =~= s.edges);
    assert(s.r().r().r().r().centers =~= s.centers);
}

/// Decoding a state number and encoding the state gives the number back.
pub proof fn lemma_encode_of_decode(state: nat)
    requires
        state < STATE_SIZE,
    ensures
        CubeState::decode(state).wf(),
        CubeState::decode(state).encode() == state,
{
    lemma_sizes();
    lemma_rank_of_unrank(state / CENTERS_CORNERS_SIZE as nat, 10);
    lemma_multiset_rank_of_unrank(
        (state % CENTERS_CORNERS_SIZE as nat) / 4,
        center_counts(),
        10,
    );
}

/// Encoding a well-formed cube and decoding the number gives the cube
/// back.
pub proof fn lemma_decode_of_encode(s: CubeState)
    requires
        s.wf(),
    ensures
        s.edge_coord() < EDGES_SIZE,
        s.center_corner_coord() < CENTERS_CORNERS_SIZE,
        s.encode() < STATE_SIZE,
        s.with_edge_coord(s.edge_coord()) == s,
        s.with_center_corner_coord(s.center_corner_coord()) == s,
        CubeState::decode(s.encode()) == s,
{
    lemma_sizes();
    lemma_unrank_of_rank(s.edges);
    lemma_multiset_unrank_of_rank(s.centers, 4);
    assert(counts_of(s.centers, 4) =~= center_counts());
    let n = s.encode();
    let cc = s.center_corner_coord();
    assert(n / 75600 == s.edge_coord() && n % 75600 == cc && n < 274337280000) by (nonlinear_arith)
        requires
            n == s.edge_coord() * 75600 + cc,
            cc < 75600,
            s.edge_coord() < 3628800,
    ;
    assert(s.with_edge_coord(s.edge_coord()) == s);
    assert(s.with_center_corner_coord(cc) == s);
}

impl Cube {
    /// The solved cube.
    pub fn new() -> (cube: Cube)
        ensures
            cube@ == CubeState::solved(),
            cube@.wf(),
    {
        let cube = Cube { corners: 0, edges: identity(), centers: [0, 0, 0, 0, 1, 1, 2, 2, 3, 3] };
        proof {
            assert(cube.centers@ =~= solved_centers());
            lemma_solved();
        }
        cube
    }

    /// A quarter turn of the upper layer.
    pub fn u(&mut self)
        ensures
            final(self)@ == old(self)@.u(),
            old(self)@.wf() ==> final(self)@.wf(),
    {
        proof {
            reveal(CubeState::u);
            if self@.wf() {
                lemma_moves_keep_wf(self@);
            }
        }
        self.corners = ((self.corners as u16 + 1) % 4) as u8;
        cycle4(&mut self.edges, 0, 2, 4, 6);
        cycle4(&mut self.edges, 1, 3, 5, 7);
        cycle4(&mut self.centers, 0, 1, 2, 3);
    }

    /// A quarter turn of the upper layer the other way.
    pub fn uinv(&mut self)
        ensures
            final(self)@ == old(self)@.uinv(),
            old(self)@.wf() ==> final(self)@.wf(),
    {
        proof {
            reveal(CubeState::uinv);
            if self@.wf() {
                lemma_moves_keep_wf(self@);
            }
        }
        self.corners = ((self.corners as u16 + 3) % 4) as u8;
        cycle4(&mut self.edges, 0, 6, 4, 2);
        cycle4(&mut self.edges, 1, 7, 5, 3);
        cycle4(&mut self.centers, 0, 3, 2, 1);
    }

    /// A quarter turn of the inner layer on the right.
    pub fn r(&mut self)
        ensures
            final(self)@ == old(self)@.r(),
            old(self)@.wf() ==> final(self)@.wf(),
    {
        proof {
            reveal(CubeState::r);
            if self@.wf() {
                lemma_moves_keep_wf(self@);
            }
        }
        cycle4(&mut self.edges, 0, 5, 9, 8);
        cycle4(&mut self.centers, 2, 8, 6, 4);
        cycle4(&mut self.centers, 3, 9, 7, 5);
    }

    /// A quarter turn of the inner layer on the right the other way.
    pub fn rinv(&mut self)
        ensures
            final(self)@ == old(self)@.rinv(),
            old(self)@.wf() ==> final(self)@.wf(),
    {
        proof {
            reveal(CubeState::rinv);
            if self@.wf() {
                lemma_moves_keep_wf(self@);
            }
        }
        cycle4(&mut self.edges, 0, 8, 9, 5);
        cycle4(&mut self.centers, 2, 4, 6, 8);
        cycle4(&mut self.centers, 3, 5, 7, 9);
    }

    /// The coordinate of the edges.
    pub fn edge_coord(&self) -> (coord: u32)
        requires
            self@.wf(),
        ensures
            coord == self@.edge_coord(),
            coord < EDGES_SIZE,
    {
        proof {
            lemma_sizes();
        }
        encode_permutation(&self.edges) as u32
    }

    /// The coordinate of the centres.
    pub fn center_coord(&self) -> (coord: u32)
        requires
            self@.wf(),
        ensures
            coord == self@.center_coord(),
            coord < CENTERS_SIZE,
    {
        proof {
            lemma_sizes();
        }
        encode_multiset(&self.centers, &center_sizes()) as u32
    }

    /// The coordinate of centres and corners.
    pub fn center_corner_coord(&self) -> (coord: u32)
        requires
            self@.wf(),
        ensures
            coord == self@.center_corner_coord(),
            coord < CENTERS_CORNERS_SIZE,
    {
        self.center_coord() * 4 + self.corners as u32
    }

    /// Sets the edges from a coordinate.
    pub fn set_edge_coord(&mut self, coord: u32)
        requires
            coord < EDGES_SIZE,
        ensures
            final(self)@ == old(self)@.with_edge_coord(coord as nat),
            final(self)@.edge_coord() == coord,
            old(self)@.wf() ==> final(self)@.wf(),
    {
        proof {
            lemma_sizes();
        }
        self.edges = decode_permutation(coord as u64);
    }

    /// Sets the centres from a coordinate.
    pub fn set_center_coord(&mut self, coord: u32)
        requires
            coord < CENTERS_SIZE,
        ensures
            final(self)@ == (CubeState {
                centers: multiset_unrank(coord as nat, center_counts(), 10),
                ..old(self)@
            }),
            is_arrangement(final(self).centers@, center_counts()),
            final(self)@.center_coord() == coord,
    {
        proof {
            lemma_sizes();
        }
        self.centers = decode_multiset(coord as u64, &center_sizes());
    }

    /// Sets the centres and the corners from a coordinate.
    pub fn set_center_corner_coord(&mut self, coord: u32)
        requires
            coord < CENTERS_CORNERS_SIZE,
        ensures
            final(self)@ == old(self)@.with_center_corner_coord(coord as nat),
            final(self)@.center_corner_coord() == coord,
            old(self)@.wf() ==> final(self)@.wf(),
    {
        self.corners = (coord % 4) as u8;
        self.set_center_coord(coord / 4);
    }
}

} // verus!
