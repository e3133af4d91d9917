//! The cube as piece vectors, its moves, and its coordinates.
//!
//! The pieces are told apart only by the group that they belong to, so the
//! places of the edges and of the corners are arrangements of group
//! numbers. Only the edges of group 1 carry an orientation, and only the
//! corners of the groups 0 and 1: which slots those are is read from
//! the places, so the places have to be decoded before the orientations.

use vstd::prelude::*;
use crate::cube_3x3_2_color_ufr::coord_cube::CoordCube;
use crate::counting::{count_below, count_below_upto, lemma_count_below_upto};
use crate::cycle::{
    cycle4, cycled4, lemma_cycled4, lemma_turned_by_zero, lemma_turned_four_times,
    lemma_turned_turned, lemma_twisted4, same, turned, twist4, twisted4,
};
use crate::factorial::lemma_fact_values;
use crate::multiset::{
    as_counts, counts_of, decode_multiset, encode_multiset, fact_product_from, is_arrangement,
    lemma_arrangements_closed_form, lemma_multiset_rank_of_unrank, lemma_multiset_unrank_of_rank,
    lemma_rearranged_arrangement, multinomial, multiset_rank, multiset_unrank, occurrences, sum,
    sum_upto,
};
use crate::orientation::{
    count_selected, decode_selected, encode_selected, entries_below, lemma_selected_fill_agree,
    lemma_selected_fill_of_value, lemma_selected_value_agree, lemma_selected_value_bound,
    lemma_selected_value_of_fill, lemma_zeros, power, selected, selected_fill, selected_value,
};

verus! {

/// The number of arrangements of the edges.
pub const EP_SIZE: u32 = 18480;

/// The number of orientations of the 6 edges that carry one, `2^6`.
pub const EO_SIZE: u32 = 64;

/// The number of arrangements of the corners.
pub const CP_SIZE: u32 = 1120;

/// The number of corner orientations that are told apart, `3^6`.
pub const CO_SIZE: u32 = 729;

pub const EDGES_SIZE: u32 = 1182720;

pub const CORNERS_SIZE: u32 = 816480;

pub const STATE_SIZE: u64 = 965667225600;

#[derive(Debug, PartialEq)]
pub struct Cube {
    pub ep: [u8; 12],
    pub eo: [u8; 12],
    pub cp: [u8; 8],
    pub co: [u8; 8],
}

/// What a cube holds, as mathematical sequences.
pub struct CubeState {
    pub ep: Seq<u8>,
    pub eo: Seq<u8>,
    pub cp: Seq<u8>,
    pub co: Seq<u8>,
}

impl View for Cube {
    type V = CubeState;

    open spec fn view(&self) -> CubeState {
        CubeState { ep: self.ep@, eo: self.eo@, cp: self.cp@, co: self.co@ }
    }
}

/// The sizes of the three groups of edges.
pub open spec fn ep_counts() -> Seq<nat> {
    seq![3nat, 6, 3]
}

/// The sizes of the groups of corners.
pub open spec fn cp_counts() -> Seq<nat> {
    seq![3nat, 3, 1, 1]
}

/// The groups of the edges of the solved cube, place by place.
pub open spec fn solved_ep() -> Seq<u8> {
    seq![0u8, 1, 1, 0, 1, 2, 1, 0, 2, 2, 1, 1]
}

/// The groups of the corners of the solved cube, place by place.
pub open spec fn solved_cp() -> Seq<u8> {
    seq![0u8, 1, 0, 2, 3, 1, 0, 1]
}

/// The sizes of the three groups of edges.
pub fn ep_sizes() -> (sizes: [u8; 3])
    ensures
        as_counts(sizes@) == ep_counts(),
{
    let sizes: [u8; 3] = [3, 6, 3];
    assert(as_counts(sizes@) =~= ep_counts());
    sizes
}

/// The sizes of the groups of corners.
pub fn cp_sizes() -> (sizes: [u8; 4])
    ensures
        as_counts(sizes@) == cp_counts(),
{
    let sizes: [u8; 4] = [3, 3, 1, 1];
    assert(as_counts(sizes@) =~= cp_counts());
    sizes
}

/// The sizes are what their names say.
pub proof fn lemma_sizes()
    ensures
        sum(ep_counts()) == 12,
        sum(cp_counts()) == 8,
        multinomial(ep_counts()) == EP_SIZE,
        multinomial(cp_counts()) == CP_SIZE,
        power(2, 6) == EO_SIZE,
        power(3, 6) == CO_SIZE,
        EDGES_SIZE == EP_SIZE * EO_SIZE,
        CORNERS_SIZE == CP_SIZE * CO_SIZE,
        STATE_SIZE == EDGES_SIZE * CORNERS_SIZE,
{
    reveal_with_fuel(sum_upto, 5);
    reveal_with_fuel(power, 9);
    lemma_fact_values();
    lemma_arrangements_closed_form(ep_counts(), 12);
    lemma_arrangements_closed_form(cp_counts(), 8);
    let ep3 = fact_product_from(ep_counts(), 3);
    assert(ep3 == 1);
    let ep2 = fact_product_from(ep_counts(), 2);
    assert(ep2 == crate::factorial::fact(3) * ep3);
    assert(ep2 == 6) by (nonlinear_arith)
        requires
            ep2 == crate::factorial::fact(3) * ep3,
            crate::factorial::fact(3) == 6,
            ep3 == 1,
    ;
    let ep1 = fact_product_from(ep_counts(), 1);
    assert(ep1 == crate::factorial::fact(6) * ep2);
    assert(ep1 == 4320) by (nonlinear_arith)
        requires
            ep1 == crate::factorial::fact(6) * ep2,
            crate::factorial::fact(6) == 720,
            ep2 == 6,
    ;
    let ep0 = fact_product_from(ep_counts(), 0);
    assert(ep0 == crate::factorial::fact(3) * ep1);
    assert(ep0 == 25920) by (nonlinear_arith)
        requires
            ep0 == crate::factorial::fact(3) * ep1,
            crate::factorial::fact(3) == 6,
            ep1 == 4320,
    ;
    let cp4 = fact_product_from(cp_counts(), 4);
    assert(cp4 == 1);
    let cp3 = fact_product_from(cp_counts(), 3);
    assert(cp3 == crate::factorial::fact(1) * cp4);
    assert(cp3 == 1) by (nonlinear_arith)
        requires
            cp3 == crate::factorial::fact(1) * cp4,
            crate::factorial::fact(1) == 1,
            cp4 == 1,
    ;
    let cp2 = fact_product_from(cp_counts(), 2);
    assert(cp2 == crate::factorial::fact(1) * cp3);
    assert(cp2 == 1) by (nonlinear_arith)
        requires
            cp2 == crate::factorial::fact(1) * cp3,
            crate::factorial::fact(1) == 1,
            cp3 == 1,
    ;
    let cp1 = fact_product_from(cp_counts(), 1);
    assert(cp1 == crate::factorial::fact(3) * cp2);
    assert(cp1 == 6) by (nonlinear_arith)
        requires
            cp1 == crate::factorial::fact(3) * cp2,
            crate::factorial::fact(3) == 6,
            cp2 == 1,
    ;
    let cp0 = fact_product_from(cp_counts(), 0);
    assert(cp0 == crate::factorial::fact(3) * cp1);
    assert(cp0 == 36) by (nonlinear_arith)
        requires
            cp0 == crate::factorial::fact(3) * cp1,
            crate::factorial::fact(3) == 6,
            cp1 == 6,
    ;
    let ea = crate::multiset::arrangements(ep_counts(), 12);
    let ca = crate::multiset::arrangements(cp_counts(), 8);
    assert(ea == 18480) by (nonlinear_arith)
        requires
            ea * 25920 == 479001600,
    ;
    assert(ca == 1120) by (nonlinear_arith)
        requires
            ca * 36 == 40320,
    ;
}

/// What `u` does to the places of the edges.
pub open spec fn u_ep(v: Seq<u8>) -> Seq<u8> {
    cycled4(v, 0, 1, 2, 3)
}

/// What `u` does to the orientations of the edges.
#[verifier::opaque]
pub open spec fn u_eo(v: Seq<u8>) -> Seq<u8> {
    cycled4(v, 0, 1, 2, 3)
}

/// What `u` does to the places of the corners.
pub open spec fn u_cp(v: Seq<u8>) -> Seq<u8> {
    cycled4(v, 0, 1, 2, 3)
}

/// What `u` does to the orientations of the corners.
#[verifier::opaque]
pub open spec fn u_co(v: Seq<u8>) -> Seq<u8> {
    twisted4(v, 0, 1, 2, 3, 1, 2, 2, 1, 3)
}

/// What `x` does to the places of the edges.
pub open spec fn x_ep(v: Seq<u8>) -> Seq<u8> {
    cycled4(cycled4(cycled4(v, 0, 2, 8, 10), 1, 5, 9, 4), 3, 6, 11, 7)
}

/// What `x` does to the orientations of the edges.
#[verifier::opaque]
pub open spec fn x_eo(v: Seq<u8>) -> Seq<u8> {
    twisted4(cycled4(twisted4(v, 0, 2, 8, 10, 0, 1, 1, 0, 2), 1, 5, 9, 4), 3, 6, 11, 7, 0, 1, 0, 1, 2)
}

/// What `x` does to the places of the corners.
pub open spec fn x_cp(v: Seq<u8>) -> Seq<u8> {
    cycled4(cycled4(v, 0, 1, 4, 5), 2, 7, 6, 3)
}

/// What `x` does to the orientations of the corners.
#[verifier::opaque]
pub open spec fn x_co(v: Seq<u8>) -> Seq<u8> {
    twisted4(twisted4(v, 0, 1, 4, 5, 1, 1, 1, 0, 3), 2, 7, 6, 3, 0, 2, 2, 2, 3)
}

/// What `y` does to the places of the edges.
pub open spec fn y_ep(v: Seq<u8>) -> Seq<u8> {
    cycled4(cycled4(cycled4(v, 0, 1, 2, 3), 4, 5, 6, 7), 8, 11, 10, 9)
}

/// What `y` does to the orientations of the edges.
#[verifier::opaque]
pub open spec fn y_eo(v: Seq<u8>) -> Seq<u8> {
    twisted4(twisted4(cycled4(v, 0, 1, 2, 3), 4, 5, 6, 7, 1, 1, 0, 0, 2), 8, 11, 10, 9, 0, 1, 0, 1, 2)
}

/// What `y` does to the places of the corners.
pub open spec fn y_cp(v: Seq<u8>) -> Seq<u8> {
    cycled4(cycled4(v, 0, 1, 2, 3), 4, 7, 6, 5)
}

/// What `y` does to the orientations of the corners.
#[verifier::opaque]
pub open spec fn y_co(v: Seq<u8>) -> Seq<u8> {
    twisted4(twisted4(v, 0, 1, 2, 3, 1, 2, 2, 1, 3), 4, 7, 6, 5, 2, 2, 1, 1, 3)
}

impl CubeState {
    /// The vectors have their lengths, the places are arrangements of the
    /// groups, and the orientations are in range.
    pub open spec fn wf(self) -> bool {
        &&& self.ep.len() == 12 && is_arrangement(self.ep, ep_counts())
        &&& self.eo.len() == 12 && entries_below(self.eo, 2)
        &&& self.cp.len() == 8 && is_arrangement(self.cp, cp_counts())
        &&& self.co.len() == 8 && entries_below(self.co, 3)
    }

    /// The solved cube.
    pub open spec fn solved() -> CubeState {
        CubeState {
            ep: solved_ep(),
            eo: Seq::new(12, |i: int| 0u8),
            cp: solved_cp(),
            co: Seq::new(8, |i: int| 0u8),
        }
    }

    /// Whether the cube looks solved: the pieces are in the places of their
    /// groups, and those whose orientation shows are not turned.
    pub open spec fn is_solved(self) -> bool {
        &&& self.ep == solved_ep()
        &&& self.cp == solved_cp()
        &&& forall|i: int| 0 <= i < 12 && shows_edge_orientation(i) ==> self.eo[i] == 0
        &&& forall|i: int| 0 <= i < 8 && shows_corner_orientation(i) ==> self.co[i] == 0
    }

    /// A quarter turn of the upper face.
    pub open spec fn u(self) -> CubeState {
        CubeState {
            ep: u_ep(self.ep),
            eo: u_eo(self.eo),
            cp: u_cp(self.cp),
            co: u_co(self.co),
        }
    }

    /// The whole cube turned a quarter about the axis through the right face.
    pub open spec fn x(self) -> CubeState {
        CubeState {
            ep: x_ep(self.ep),
            eo: x_eo(self.eo),
            cp: x_cp(self.cp),
            co: x_co(self.co),
        }
    }

    /// The whole cube turned a quarter about the axis through the upper face.
    pub open spec fn y(self) -> CubeState {
        CubeState {
            ep: y_ep(self.ep),
            eo: y_eo(self.eo),
            cp: y_cp(self.cp),
            co: y_co(self.co),
        }
    }

    /// The whole cube turned a quarter about the axis through the front face.
    pub open spec fn z(self) -> CubeState {
        self.x().y().x().x().x()
    }

    /// `x` the other way.
    pub open spec fn xp(self) -> CubeState {
        self.x().x().x()
    }

    /// `y` the other way.
    pub open spec fn yp(self) -> CubeState {
        self.y().y().y()
    }

    /// `z` the other way.
    pub open spec fn zp(self) -> CubeState {
        self.z().z().z()
    }

    /// A quarter turn of the left face: the left face is brought up, turned, and brought back.
    pub open spec fn l(self) -> CubeState {
        self.z().u().zp()
    }

    /// A quarter turn of the front face.
    pub open spec fn f(self) -> CubeState {
        self.x().u().xp()
    }

    /// A quarter turn of the right face.
    pub open spec fn r(self) -> CubeState {
        self.zp().u().z()
    }

    /// A quarter turn of the back face.
    pub open spec fn b(self) -> CubeState {
        self.xp().u().x()
    }

    /// A quarter turn of the lower face.
    pub open spec fn d(self) -> CubeState {
        self.x().x().u().x().x()
    }

    /// `u` the other way.
    pub open spec fn up(self) -> CubeState {
        self.u().u().u()
    }

    /// `l` the other way.
    pub open spec fn lp(self) -> CubeState {
        self.l().l().l()
    }

    /// `f` the other way.
    pub open spec fn fp(self) -> CubeState {
        self.f().f().f()
    }

    /// `r` the other way.
    pub open spec fn rp(self) -> CubeState {
        self.r().r().r()
    }

    /// `b` the other way.
    pub open spec fn bp(self) -> CubeState {
        self.b().b().b()
    }

    /// `d` the other way.
    pub open spec fn dp(self) -> CubeState {
        self.d().d().d()
    }

    /// The coordinate of the places of the edges.
    pub open spec fn ep_coord(self) -> nat {
        multiset_rank(self.ep, 3)
    }

    /// The orientations of the edges of group 1, read in base 2. Depends
    /// on the places of the edges.
    pub open spec fn eo_coord(self) -> nat {
        selected_value(self.eo, self.ep, 1, 1, 2)
    }

    /// The coordinate of the places of the corners.
    pub open spec fn cp_coord(self) -> nat {
        multiset_rank(self.cp, 4)
    }

    /// The orientations of the corners of the groups 0 and 1, read in base
    /// 3. Depends on the places of the corners.
    pub open spec fn co_coord(self) -> nat {
        selected_value(self.co, self.cp, 0, 1, 3)
    }

    /// The edge coordinate: places and orientations, the places in the
    /// higher place.
    pub open spec fn edges_coord(self) -> nat {
        self.ep_coord() * EO_SIZE as nat + self.eo_coord()
    }

    /// The corner coordinate: places and orientations, the places in the
    /// higher place.
    pub open spec fn corners_coord(self) -> nat {
        self.cp_coord() * CO_SIZE as nat + self.co_coord()
    }

    /// The state number: edges and corners, the edges in the higher place.
    pub open spec fn encode(self) -> nat {
        self.edges_coord() * CORNERS_SIZE as nat + self.corners_coord()
    }

    /// The state with the edges set from a coordinate: first the places,
    /// then the orientations in the slots that the places point out. The
    /// other slots keep the orientation they had.
    pub open spec fn with_edges_coord(self, coord: nat) -> CubeState {
        let ep = multiset_unrank(coord / EO_SIZE as nat, ep_counts(), 12);
        CubeState { ep, eo: selected_fill(self.eo, ep, 1, 1, 2, coord % EO_SIZE as nat), ..self }
    }

    /// The state with the corners set from a coordinate: first the places,
    /// then the orientations.
    pub open spec fn with_corners_coord(self, coord: nat) -> CubeState {
        let cp = multiset_unrank(coord / CO_SIZE as nat, cp_counts(), 8);
        CubeState { cp, co: selected_fill(self.co, cp, 0, 1, 3, coord % CO_SIZE as nat), ..self }
    }

    /// The state with number `state`.
    pub open spec fn decode(self, state: nat) -> CubeState {
        self.with_edges_coord(state / CORNERS_SIZE as nat).with_corners_coord(
            state % CORNERS_SIZE as nat,
        )
    }
}

/// Whether the orientation of the edge in place `i` of the solved cube
/// shows.
pub open spec fn shows_edge_orientation(i: int) -> bool {
    i == 1 || i == 2 || i == 4 || i == 6 || i == 10 || i == 11
}

/// Whether the orientation of the corner in place `i` of the solved cube
/// shows.
pub open spec fn shows_corner_orientation(i: int) -> bool {
    i == 0 || i == 1 || i == 2 || i == 5 || i == 6 || i == 7
}

/// Of the edges of a well-formed cube, 6 carry an orientation, and of the corners, 6.
pub proof fn lemma_selected_slots(s: CubeState)
    requires
        s.wf(),
    ensures
        count_selected(s.ep, 1, 1) == 6,
        count_selected(s.cp, 0, 1) == 6,
{
    assert(occurrences(s.ep, 1) == ep_counts()[1]);
    assert(occurrences(s.cp, 0) == cp_counts()[0]);
    assert(occurrences(s.cp, 1) == cp_counts()[1]);
    crate::counting::lemma_count_below_monotonic(s.cp, 0, 1);
    crate::counting::lemma_count_below_monotonic(s.cp, 1, 2);
}

/// The solved cube is well-formed.
pub proof fn lemma_solved_wf()
    ensures
        CubeState::solved().wf(),
        CubeState::solved().is_solved(),
{
    let s = CubeState::solved();
    lemma_counts_of_literal_12(s.ep);
    lemma_counts_of_literal_8(s.cp);
    lemma_zeros(s.eo, 2);
    lemma_zeros(s.co, 3);
}

/// The group sizes of the solved edges.
proof fn lemma_counts_of_literal_12(s: Seq<u8>)
    requires
        s == solved_ep(),
    ensures
        s.len() == 12,
        is_arrangement(s, ep_counts()),
{
    assert forall|x: int| 0 <= x <= 3 implies #[trigger] count_below(s, x) == expected_below_ep(
        x,
    ) by {
        lemma_count_below_literal(s, x, 12);
    }
    assert forall|g: int| 0 <= g < 3 implies #[trigger] occurrences(s, g) == ep_counts()[g] by {
        assert(count_below(s, g) == expected_below_ep(g));
        assert(count_below(s, g + 1) == expected_below_ep(g + 1));
    }
}

/// The group sizes of the solved corners.
proof fn lemma_counts_of_literal_8(s: Seq<u8>)
    requires
        s == solved_cp(),
    ensures
        s.len() == 8,
        is_arrangement(s, cp_counts()),
{
    assert forall|x: int| 0 <= x <= 4 implies #[trigger] count_below(s, x)
        == expected_below_cp(x) by {
        lemma_count_below_literal(s, x, 8);
    }
    assert forall|g: int| 0 <= g < 4 implies #[trigger] occurrences(s, g)
        == cp_counts()[g] by {
        assert(count_below(s, g) == expected_below_cp(g));
        assert(count_below(s, g + 1) == expected_below_cp(g + 1));
    }
}

/// The number of edges in groups below `x`.
pub open spec fn expected_below_ep(x: int) -> nat {
    sum_upto(ep_counts(), x as nat)
}

/// The number of corners in groups below `x`.
pub open spec fn expected_below_cp(x: int) -> nat {
    sum_upto(cp_counts(), x as nat)
}

proof fn lemma_count_below_literal(s: Seq<u8>, x: int, n: int)
    requires
        s == solved_ep() && n == 12 && 0 <= x <= 3 || s == solved_cp() && n == 8 && 0 <= x <= 4,
    ensures
        s == solved_ep() ==> count_below(s, x) == expected_below_ep(x),
        s == solved_cp() ==> count_below(s, x) == expected_below_cp(x),
{
    lemma_count_below_upto(s, x, n);
    assert(s.take(n) =~= s);
    reveal_with_fuel(count_below_upto, 13);
    reveal_with_fuel(sum_upto, 5);
    if x == 0 {
    } else if x == 1 {
    } else if x == 2 {
    } else if x == 3 {
    } else {
    }
}

/// The three elementary moves keep a well-formed cube well-formed.
pub proof fn lemma_moves_keep_wf(s: CubeState)
    requires
        s.wf(),
    ensures
        s.u().wf(),
        s.x().wf(),
        s.y().wf(),
{
    reveal(u_eo);
    reveal(x_eo);
    reveal(y_eo);
    reveal(u_co);
    reveal(x_co);
    reveal(y_co);
    lemma_cycled4(s.ep, 0, 1, 2, 3);
    lemma_cycled4(s.eo, 0, 1, 2, 3);
    lemma_cycled4(s.cp, 0, 1, 2, 3);
    lemma_twisted4(s.co, 0, 1, 2, 3, 1, 2, 2, 1, 3);
    lemma_cycled4(s.ep, 0, 2, 8, 10);
    lemma_cycled4(cycled4(s.ep, 0, 2, 8, 10), 1, 5, 9, 4);
    lemma_cycled4(cycled4(cycled4(s.ep, 0, 2, 8, 10), 1, 5, 9, 4), 3, 6, 11, 7);
    lemma_twisted4(s.eo, 0, 2, 8, 10, 0, 1, 1, 0, 2);
    lemma_cycled4(twisted4(s.eo, 0, 2, 8, 10, 0, 1, 1, 0, 2), 1, 5, 9, 4);
    lemma_twisted4(cycled4(twisted4(s.eo, 0, 2, 8, 10, 0, 1, 1, 0, 2), 1, 5, 9, 4), 3, 6, 11, 7, 0, 1, 0, 1, 2);
    lemma_cycled4(s.cp, 0, 1, 4, 5);
    lemma_cycled4(cycled4(s.cp, 0, 1, 4, 5), 2, 7, 6, 3);
    lemma_twisted4(s.co, 0, 1, 4, 5, 1, 1, 1, 0, 3);
    lemma_twisted4(twisted4(s.co, 0, 1, 4, 5, 1, 1, 1, 0, 3), 2, 7, 6, 3, 0, 2, 2, 2, 3);
    lemma_cycled4(s.ep, 0, 1, 2, 3);
    lemma_cycled4(cycled4(s.ep, 0, 1, 2, 3), 4, 5, 6, 7);
    lemma_cycled4(cycled4(cycled4(s.ep, 0, 1, 2, 3), 4, 5, 6, 7), 8, 11, 10, 9);
    lemma_cycled4(s.eo, 0, 1, 2, 3);
    lemma_twisted4(cycled4(s.eo, 0, 1, 2, 3), 4, 5, 6, 7, 1, 1, 0, 0, 2);
    lemma_twisted4(twisted4(cycled4(s.eo, 0, 1, 2, 3), 4, 5, 6, 7, 1, 1, 0, 0, 2), 8, 11, 10, 9, 0, 1, 0, 1, 2);
    lemma_cycled4(s.cp, 0, 1, 2, 3);
    lemma_cycled4(cycled4(s.cp, 0, 1, 2, 3), 4, 7, 6, 5);
    lemma_twisted4(s.co, 0, 1, 2, 3, 1, 2, 2, 1, 3);
    lemma_twisted4(twisted4(s.co, 0, 1, 2, 3, 1, 2, 2, 1, 3), 4, 7, 6, 5, 2, 2, 1, 1, 3);
    assert forall|g: int| 0 <= g < 3 implies #[trigger] occurrences(s.ep, g) == ep_counts()[g] by {}
    lemma_rearranged_arrangement(s.ep, s.u().ep, ep_counts());
    lemma_rearranged_arrangement(s.ep, s.x().ep, ep_counts());
    lemma_rearranged_arrangement(s.ep, s.y().ep, ep_counts());
    lemma_rearranged_arrangement(s.cp, s.u().cp, cp_counts());
    lemma_rearranged_arrangement(s.cp, s.x().cp, cp_counts());
    lemma_rearranged_arrangement(s.cp, s.y().cp, cp_counts());
}

/// Every move is made of the three elementary ones, so every move keeps a
/// well-formed cube well-formed.
pub proof fn lemma_turns_keep_wf(s: CubeState)
    requires
        s.wf(),
    ensures
        s.z().wf(),
        s.xp().wf(),
        s.yp().wf(),
        s.zp().wf(),
        s.l().wf(),
        s.f().wf(),
        s.r().wf(),
        s.b().wf(),
        s.d().wf(),
{
    lemma_z_keeps_wf(s);
    lemma_moves_keep_wf(s);
    lemma_moves_keep_wf(s.x());
    lemma_moves_keep_wf(s.x().x());
    lemma_moves_keep_wf(s.y());
    lemma_moves_keep_wf(s.y().y());
    lemma_z_keeps_wf(s.z());
    lemma_z_keeps_wf(s.z().z());
    // l = z u zp
    lemma_moves_keep_wf(s.z());
    lemma_z_keeps_wf(s.z().u());
    lemma_z_keeps_wf(s.z().u().z());
    lemma_z_keeps_wf(s.z().u().z().z());
    // f = x u xp
    lemma_moves_keep_wf(s.x().u());
    lemma_moves_keep_wf(s.x().u().x());
    lemma_moves_keep_wf(s.x().u().x().x());
    // r = zp u z
    lemma_moves_keep_wf(s.zp());
    lemma_z_keeps_wf(s.zp().u());
    // b = xp u x
    lemma_moves_keep_wf(s.xp());
    lemma_moves_keep_wf(s.xp().u());
    // d = x x u x x
    lemma_moves_keep_wf(s.x().x().u());
    lemma_moves_keep_wf(s.x().x().u().x());
}

proof fn lemma_z_keeps_wf(s: CubeState)
    requires
        s.wf(),
    ensures
        s.z().wf(),
{
    lemma_moves_keep_wf(s);
    lemma_moves_keep_wf(s.x());
    lemma_moves_keep_wf(s.x().y());
    lemma_moves_keep_wf(s.x().y().x());
    lemma_moves_keep_wf(s.x().y().x().x());
}

/// The three elementary moves come back after four times.
pub proof fn lemma_quarter_turns(s: CubeState)
    requires
        s.wf(),
    ensures
        s.u().u().u().u() == s,
        s.x().x().x().x() == s,
        s.y().y().y().y() == s,
{
    reveal(u_eo);
    reveal(x_eo);
    reveal(y_eo);
    reveal(u_co);
    reveal(x_co);
    reveal(y_co);
    assert(s.eo[0] < 2 && s.eo[1] < 2 && s.eo[2] < 2 && s.eo[3] < 2 && s.eo[4] < 2 && s.eo[5] < 2
        && s.eo[6] < 2 && s.eo[7] < 2 && s.eo[8] < 2 && s.eo[9] < 2 && s.eo[10] < 2 && s.eo[11]
        < 2);
    assert(s.co[0] < 3 && s.co[1] < 3 && s.co[2] < 3 && s.co[3] < 3 && s.co[4] < 3 && s.co[5] < 3
        && s.co[6] < 3 && s.co[7] < 3);
    assert(s.u().u().u().u() == s) by {
    lemma_turned_four_times(s.co[0], 2, 2, 1, 1, 3);
    lemma_turned_four_times(s.co[1], 2, 1, 1, 2, 3);
    lemma_turned_four_times(s.co[2], 1, 1, 2, 2, 3);
    lemma_turned_four_times(s.co[3], 1, 2, 2, 1, 3);
        let t = s.u().u().u().u();
        assert(t.ep =~= s.ep);
        assert(t.eo =~= s.eo);
        assert(t.cp =~= s.cp);
        assert(t.co =~= s.co);
    }
    assert(s.x().x().x().x() == s) by {
    lemma_turned_four_times(s.eo[0], 1, 1, 0, 0, 2);
    lemma_turned_four_times(s.eo[2], 1, 0, 0, 1, 2);
    lemma_turned_four_times(s.eo[8], 0, 0, 1, 1, 2);
    lemma_turned_four_times(s.eo[10], 0, 1, 1, 0, 2);
    lemma_turned_four_times(s.eo[3], 1, 0, 1, 0, 2);
    lemma_turned_four_times(s.eo[6], 0, 1, 0, 1, 2);
    lemma_turned_four_times(s.eo[11], 1, 0, 1, 0, 2);
    lemma_turned_four_times(s.eo[7], 0, 1, 0, 1, 2);
    lemma_turned_four_times(s.co[0], 1, 1, 0, 1, 3);
    lemma_turned_four_times(s.co[1], 1, 0, 1, 1, 3);
    lemma_turned_four_times(s.co[4], 0, 1, 1, 1, 3);
    lemma_turned_four_times(s.co[5], 1, 1, 1, 0, 3);
    lemma_turned_four_times(s.co[2], 2, 2, 2, 0, 3);
    lemma_turned_four_times(s.co[7], 2, 2, 0, 2, 3);
    lemma_turned_four_times(s.co[6], 2, 0, 2, 2, 3);
    lemma_turned_four_times(s.co[3], 0, 2, 2, 2, 3);
        let t = s.x().x().x().x();
        assert(t.ep =~= s.ep);
        assert(t.eo =~= s.eo);
        assert(t.cp =~= s.cp);
        assert(t.co =~= s.co);
    }
    assert(s.y().y().y().y() == s) by {
    lemma_turned_four_times(s.eo[4], 1, 0, 0, 1, 2);
    lemma_turned_four_times(s.eo[5], 0, 0, 1, 1, 2);
    lemma_turned_four_times(s.eo[6], 0, 1, 1, 0, 2);
    lemma_turned_four_times(s.eo[7], 1, 1, 0, 0, 2);
    lemma_turned_four_times(s.eo[8], 1, 0, 1, 0, 2);
    lemma_turned_four_times(s.eo[11], 0, 1, 0, 1, 2);
    lemma_turned_four_times(s.eo[10], 1, 0, 1, 0, 2);
    lemma_turned_four_times(s.eo[9], 0, 1, 0, 1, 2);
    lemma_turned_four_times(s.co[0], 2, 2, 1, 1, 3);
    lemma_turned_four_times(s.co[1], 2, 1, 1, 2, 3);
    lemma_turned_four_times(s.co[2], 1, 1, 2, 2, 3);
    lemma_turned_four_times(s.co[3], 1, 2, 2, 1, 3);
    lemma_turned_four_times(s.co[4], 2, 1, 1, 2, 3);
    lemma_turned_four_times(s.co[7], 1, 1, 2, 2, 3);
    lemma_turned_four_times(s.co[6], 1, 2, 2, 1, 3);
    lemma_turned_four_times(s.co[5], 2, 2, 1, 1, 3);
        let t = s.y().y().y().y();
        assert(t.ep =~= s.ep);
        assert(t.eo =~= s.eo);
        assert(t.cp =~= s.cp);
        assert(t.co =~= s.co);
    }
}

/// What `z` comes to for the places of the edges.
pub open spec fn z_ep(v: Seq<u8>) -> Seq<u8> {
    cycled4(cycled4(cycled4(v, 0, 7, 10, 4), 1, 3, 11, 9), 2, 6, 8, 5)
}

/// What `z` comes to for the orientations of the edges.
pub open spec fn z_eo(v: Seq<u8>) -> Seq<u8> {
    twisted4(twisted4(twisted4(v, 0, 7, 10, 4, 1, 1, 0, 0, 2), 1, 3, 11, 9, 1, 1, 0, 0, 2), 2, 6, 8, 5, 1, 0, 0, 1, 2)
}

/// What `z` comes to for the places of the corners.
pub open spec fn z_cp(v: Seq<u8>) -> Seq<u8> {
    cycled4(cycled4(v, 0, 3, 6, 5), 1, 2, 7, 4)
}

/// What `z` comes to for the orientations of the corners.
pub open spec fn z_co(v: Seq<u8>) -> Seq<u8> {
    twisted4(twisted4(v, 0, 3, 6, 5, 2, 0, 2, 2, 3), 1, 2, 7, 4, 1, 1, 1, 0, 3)
}

/// The whole cube turned a quarter about the axis through the front face,
/// as the cycles that it comes to.
pub open spec fn z_cycles(s: CubeState) -> CubeState {
    CubeState { ep: z_ep(s.ep), eo: z_eo(s.eo), cp: z_cp(s.cp), co: z_co(s.co) }
}

proof fn lemma_z_ep(v: Seq<u8>)
    requires
        v.len() == 12,
    ensures
        x_ep(x_ep(x_ep(y_ep(x_ep(v))))) == z_ep(v),
        z_ep(z_ep(z_ep(z_ep(v)))) == v,
{
    assert(x_ep(x_ep(x_ep(y_ep(x_ep(v))))) =~= z_ep(v));
    assert(z_ep(z_ep(z_ep(z_ep(v)))) =~= v);
}

proof fn lemma_z_cp(v: Seq<u8>)
    requires
        v.len() == 8,
    ensures
        x_cp(x_cp(x_cp(y_cp(x_cp(v))))) == z_cp(v),
        z_cp(z_cp(z_cp(z_cp(v)))) == v,
{
    assert(x_cp(x_cp(x_cp(y_cp(x_cp(v))))) =~= z_cp(v));
    assert(z_cp(z_cp(z_cp(z_cp(v)))) =~= v);
}

/// What `x` puts in each slot.
proof fn lemma_x_eo_slots(w: Seq<u8>)
    requires
        w.len() == 12,
    ensures
        x_eo(w).len() == 12,
        x_eo(w)[0] == turned(w[10], 0, 2),
        x_eo(w)[1] == w[4],
        x_eo(w)[2] == turned(w[0], 1, 2),
        x_eo(w)[3] == turned(w[7], 0, 2),
        x_eo(w)[4] == w[9],
        x_eo(w)[5] == w[1],
        x_eo(w)[6] == turned(w[3], 1, 2),
        x_eo(w)[7] == turned(w[11], 1, 2),
        x_eo(w)[8] == turned(w[2], 1, 2),
        x_eo(w)[9] == w[5],
        x_eo(w)[10] == turned(w[8], 0, 2),
        x_eo(w)[11] == turned(w[6], 0, 2),
{
    reveal(x_eo);
}

/// What `y` puts in each slot.
proof fn lemma_y_eo_slots(w: Seq<u8>)
    requires
        w.len() == 12,
    ensures
        y_eo(w).len() == 12,
        y_eo(w)[0] == w[3],
        y_eo(w)[1] == w[0],
        y_eo(w)[2] == w[1],
        y_eo(w)[3] == w[2],
        y_eo(w)[4] == turned(w[7], 1, 2),
        y_eo(w)[5] == turned(w[4], 1, 2),
        y_eo(w)[6] == turned(w[5], 0, 2),
        y_eo(w)[7] == turned(w[6], 0, 2),
        y_eo(w)[8] == turned(w[9], 0, 2),
        y_eo(w)[9] == turned(w[10], 1, 2),
        y_eo(w)[10] == turned(w[11], 0, 2),
        y_eo(w)[11] == turned(w[8], 1, 2),
{
    reveal(y_eo);
}

/// What `x` puts in each slot.
proof fn lemma_x_co_slots(w: Seq<u8>)
    requires
        w.len() == 8,
    ensures
        x_co(w).len() == 8,
        x_co(w)[0] == turned(w[5], 1, 3),
        x_co(w)[1] == turned(w[0], 1, 3),
        x_co(w)[2] == turned(w[3], 0, 3),
        x_co(w)[3] == turned(w[6], 2, 3),
        x_co(w)[4] == turned(w[1], 1, 3),
        x_co(w)[5] == turned(w[4], 0, 3),
        x_co(w)[6] == turned(w[7], 2, 3),
        x_co(w)[7] == turned(w[2], 2, 3),
{
    reveal(x_co);
}

/// What `y` puts in each slot.
proof fn lemma_y_co_slots(w: Seq<u8>)
    requires
        w.len() == 8,
    ensures
        y_co(w).len() == 8,
        y_co(w)[0] == turned(w[3], 1, 3),
        y_co(w)[1] == turned(w[0], 2, 3),
        y_co(w)[2] == turned(w[1], 2, 3),
        y_co(w)[3] == turned(w[2], 1, 3),
        y_co(w)[4] == turned(w[5], 2, 3),
        y_co(w)[5] == turned(w[6], 1, 3),
        y_co(w)[6] == turned(w[7], 1, 3),
        y_co(w)[7] == turned(w[4], 2, 3),
{
    reveal(y_co);
}

/// What `z` puts in each slot.
proof fn lemma_z_eo_slots(w: Seq<u8>)
    requires
        w.len() == 12,
    ensures
        z_eo(w).len() == 12,
        z_eo(w)[0] == turned(w[4], 1, 2),
        z_eo(w)[1] == turned(w[9], 1, 2),
        z_eo(w)[2] == turned(w[5], 1, 2),
        z_eo(w)[3] == turned(w[1], 1, 2),
        z_eo(w)[4] == turned(w[10], 0, 2),
        z_eo(w)[5] == turned(w[8], 1, 2),
        z_eo(w)[6] == turned(w[2], 0, 2),
        z_eo(w)[7] == turned(w[0], 1, 2),
        z_eo(w)[8] == turned(w[6], 0, 2),
        z_eo(w)[9] == turned(w[11], 0, 2),
        z_eo(w)[10] == turned(w[7], 0, 2),
        z_eo(w)[11] == turned(w[3], 0, 2),
{
}

/// What `z` puts in each slot.
proof fn lemma_z_co_slots(w: Seq<u8>)
    requires
        w.len() == 8,
    ensures
        z_co(w).len() == 8,
        z_co(w)[0] == turned(w[5], 2, 3),
        z_co(w)[1] == turned(w[4], 1, 3),
        z_co(w)[2] == turned(w[1], 1, 3),
        z_co(w)[3] == turned(w[0], 0, 3),
        z_co(w)[4] == turned(w[7], 0, 3),
        z_co(w)[5] == turned(w[6], 2, 3),
        z_co(w)[6] == turned(w[3], 2, 3),
        z_co(w)[7] == turned(w[2], 1, 3),
{
}

proof fn lemma_z_eo(v: Seq<u8>)
    requires
        v.len() == 12,
        entries_below(v, 2),
    ensures
        x_eo(x_eo(x_eo(y_eo(x_eo(v))))) == z_eo(v),
{
    assert(v[0] < 2 && v[1] < 2 && v[2] < 2 && v[3] < 2 && v[4] < 2 && v[5] < 2 && v[6] < 2 && v[7]
        < 2 && v[8] < 2 && v[9] < 2 && v[10] < 2 && v[11] < 2);
    lemma_turned_by_zero(v[0], 2);
    lemma_turned_by_zero(v[1], 2);
    lemma_turned_by_zero(v[2], 2);
    lemma_turned_by_zero(v[3], 2);
    lemma_turned_by_zero(v[4], 2);
    lemma_turned_by_zero(v[5], 2);
    lemma_turned_by_zero(v[6], 2);
    lemma_turned_by_zero(v[7], 2);
    lemma_turned_by_zero(v[8], 2);
    lemma_turned_by_zero(v[9], 2);
    lemma_turned_by_zero(v[10], 2);
    lemma_turned_by_zero(v[11], 2);
    let v1 = x_eo(v);
    lemma_x_eo_slots(v);
    assert({
        &&& v1[0] == turned(v[10], 0, 2)
        &&& v1[1] == v[4]
        &&& v1[2] == turned(v[0], 1, 2)
        &&& v1[3] == turned(v[7], 0, 2)
        &&& v1[4] == v[9]
        &&& v1[5] == v[1]
        &&& v1[6] == turned(v[3], 1, 2)
        &&& v1[7] == turned(v[11], 1, 2)
        &&& v1[8] == turned(v[2], 1, 2)
        &&& v1[9] == v[5]
        &&& v1[10] == turned(v[8], 0, 2)
        &&& v1[11] == turned(v[6], 0, 2)
    });
    let v2 = y_eo(v1);
    lemma_y_eo_slots(v1);
    lemma_turned_turned(v[11], 1, 1, 2);
    lemma_turned_turned(v[3], 1, 0, 2);
    lemma_turned_turned(v[2], 1, 1, 2);
    lemma_turned_turned(v[6], 0, 0, 2);
    lemma_turned_turned(v[8], 0, 1, 2);
    assert({
        &&& v2[0] == turned(v[7], 0, 2)
        &&& v2[1] == turned(v[10], 0, 2)
        &&& v2[2] == v[4]
        &&& v2[3] == turned(v[0], 1, 2)
        &&& v2[4] == turned(v[11], 0, 2)
        &&& v2[5] == turned(v[9], 1, 2)
        &&& v2[6] == turned(v[1], 0, 2)
        &&& v2[7] == turned(v[3], 1, 2)
        &&& v2[8] == turned(v[5], 0, 2)
        &&& v2[9] == turned(v[8], 1, 2)
        &&& v2[10] == turned(v[6], 0, 2)
        &&& v2[11] == turned(v[2], 0, 2)
    });
    let v3 = x_eo(v2);
    lemma_x_eo_slots(v2);
    lemma_turned_turned(v[6], 0, 0, 2);
    lemma_turned_turned(v[7], 0, 1, 2);
    lemma_turned_turned(v[5], 0, 0, 2);
    lemma_turned_turned(v[3], 1, 0, 2);
    lemma_turned_turned(v[0], 1, 1, 2);
    lemma_turned_turned(v[1], 0, 0, 2);
    lemma_turned_turned(v[2], 0, 1, 2);
    assert({
        &&& v3[0] == turned(v[6], 0, 2)
        &&& v3[1] == turned(v[11], 0, 2)
        &&& v3[2] == turned(v[7], 1, 2)
        &&& v3[3] == turned(v[3], 1, 2)
        &&& v3[4] == turned(v[8], 1, 2)
        &&& v3[5] == turned(v[10], 0, 2)
        &&& v3[6] == turned(v[0], 0, 2)
        &&& v3[7] == turned(v[2], 1, 2)
        &&& v3[8] == turned(v[4], 1, 2)
        &&& v3[9] == turned(v[9], 1, 2)
        &&& v3[10] == turned(v[5], 0, 2)
        &&& v3[11] == turned(v[1], 0, 2)
    });
    let v4 = x_eo(v3);
    lemma_x_eo_slots(v3);
    lemma_turned_turned(v[5], 0, 0, 2);
    lemma_turned_turned(v[6], 0, 1, 2);
    lemma_turned_turned(v[7], 1, 1, 2);
    lemma_turned_turned(v[4], 1, 0, 2);
    lemma_turned_turned(v[2], 1, 0, 2);
    lemma_turned_turned(v[3], 1, 1, 2);
    lemma_turned_turned(v[0], 0, 0, 2);
    lemma_turned_turned(v[1], 0, 1, 2);
    assert({
        &&& v4[0] == turned(v[5], 0, 2)
        &&& v4[1] == turned(v[8], 1, 2)
        &&& v4[2] == turned(v[6], 1, 2)
        &&& v4[3] == turned(v[2], 1, 2)
        &&& v4[4] == turned(v[9], 1, 2)
        &&& v4[5] == turned(v[11], 0, 2)
        &&& v4[6] == turned(v[3], 0, 2)
        &&& v4[7] == turned(v[1], 1, 2)
        &&& v4[8] == turned(v[7], 0, 2)
        &&& v4[9] == turned(v[10], 0, 2)
        &&& v4[10] == turned(v[4], 1, 2)
        &&& v4[11] == turned(v[0], 0, 2)
    });
    let v5 = x_eo(v4);
    lemma_x_eo_slots(v4);
    lemma_turned_turned(v[4], 1, 0, 2);
    lemma_turned_turned(v[5], 0, 1, 2);
    lemma_turned_turned(v[6], 1, 1, 2);
    lemma_turned_turned(v[7], 0, 0, 2);
    lemma_turned_turned(v[1], 1, 0, 2);
    lemma_turned_turned(v[2], 1, 1, 2);
    lemma_turned_turned(v[3], 0, 0, 2);
    lemma_turned_turned(v[0], 0, 1, 2);
    assert({
        &&& v5[0] == turned(v[4], 1, 2)
        &&& v5[1] == turned(v[9], 1, 2)
        &&& v5[2] == turned(v[5], 1, 2)
        &&& v5[3] == turned(v[1], 1, 2)
        &&& v5[4] == turned(v[10], 0, 2)
        &&& v5[5] == turned(v[8], 1, 2)
        &&& v5[6] == turned(v[2], 0, 2)
        &&& v5[7] == turned(v[0], 1, 2)
        &&& v5[8] == turned(v[6], 0, 2)
        &&& v5[9] == turned(v[11], 0, 2)
        &&& v5[10] == turned(v[7], 0, 2)
        &&& v5[11] == turned(v[3], 0, 2)
    });
    lemma_z_eo_slots(v);
    assert(v5 =~= z_eo(v));
}

proof fn lemma_z_eo_order(v: Seq<u8>)
    requires
        v.len() == 12,
        entries_below(v, 2),
    ensures
        z_eo(z_eo(z_eo(z_eo(v)))) == v,
{
    assert(v[0] < 2 && v[1] < 2 && v[2] < 2 && v[3] < 2 && v[4] < 2 && v[5] < 2 && v[6] < 2 && v[7]
        < 2 && v[8] < 2 && v[9] < 2 && v[10] < 2 && v[11] < 2);
    lemma_turned_four_times(v[0], 1, 0, 0, 1, 2);
    lemma_turned_four_times(v[7], 0, 0, 1, 1, 2);
    lemma_turned_four_times(v[10], 0, 1, 1, 0, 2);
    lemma_turned_four_times(v[4], 1, 1, 0, 0, 2);
    lemma_turned_four_times(v[1], 1, 0, 0, 1, 2);
    lemma_turned_four_times(v[3], 0, 0, 1, 1, 2);
    lemma_turned_four_times(v[11], 0, 1, 1, 0, 2);
    lemma_turned_four_times(v[9], 1, 1, 0, 0, 2);
    lemma_turned_four_times(v[2], 0, 0, 1, 1, 2);
    lemma_turned_four_times(v[6], 0, 1, 1, 0, 2);
    lemma_turned_four_times(v[8], 1, 1, 0, 0, 2);
    lemma_turned_four_times(v[5], 1, 0, 0, 1, 2);
    assert(z_eo(z_eo(z_eo(z_eo(v)))) =~= v);
}

proof fn lemma_z_co(v: Seq<u8>)
    requires
        v.len() == 8,
        entries_below(v, 3),
    ensures
        x_co(x_co(x_co(y_co(x_co(v))))) == z_co(v),
{
    assert(v[0] < 3 && v[1] < 3 && v[2] < 3 && v[3] < 3 && v[4] < 3 && v[5] < 3 && v[6] < 3 && v[7]
        < 3);
    lemma_turned_by_zero(v[0], 3);
    lemma_turned_by_zero(v[1], 3);
    lemma_turned_by_zero(v[2], 3);
    lemma_turned_by_zero(v[3], 3);
    lemma_turned_by_zero(v[4], 3);
    lemma_turned_by_zero(v[5], 3);
    lemma_turned_by_zero(v[6], 3);
    lemma_turned_by_zero(v[7], 3);
    let v1 = x_co(v);
    lemma_x_co_slots(v);
    assert({
        &&& v1[0] == turned(v[5], 1, 3)
        &&& v1[1] == turned(v[0], 1, 3)
        &&& v1[2] == turned(v[3], 0, 3)
        &&& v1[3] == turned(v[6], 2, 3)
        &&& v1[4] == turned(v[1], 1, 3)
        &&& v1[5] == turned(v[4], 0, 3)
        &&& v1[6] == turned(v[7], 2, 3)
        &&& v1[7] == turned(v[2], 2, 3)
    });
    let v2 = y_co(v1);
    lemma_y_co_slots(v1);
    lemma_turned_turned(v[6], 2, 1, 3);
    lemma_turned_turned(v[5], 1, 2, 3);
    lemma_turned_turned(v[0], 1, 2, 3);
    lemma_turned_turned(v[3], 0, 1, 3);
    lemma_turned_turned(v[4], 0, 2, 3);
    lemma_turned_turned(v[1], 1, 2, 3);
    lemma_turned_turned(v[2], 2, 1, 3);
    lemma_turned_turned(v[7], 2, 1, 3);
    assert({
        &&& v2[0] == turned(v[6], 0, 3)
        &&& v2[1] == turned(v[5], 0, 3)
        &&& v2[2] == turned(v[0], 0, 3)
        &&& v2[3] == turned(v[3], 1, 3)
        &&& v2[4] == turned(v[4], 2, 3)
        &&& v2[5] == turned(v[7], 0, 3)
        &&& v2[6] == turned(v[2], 0, 3)
        &&& v2[7] == turned(v[1], 0, 3)
    });
    let v3 = x_co(v2);
    lemma_x_co_slots(v2);
    lemma_turned_turned(v[7], 0, 1, 3);
    lemma_turned_turned(v[6], 0, 1, 3);
    lemma_turned_turned(v[5], 0, 1, 3);
    lemma_turned_turned(v[4], 2, 0, 3);
    lemma_turned_turned(v[3], 1, 0, 3);
    lemma_turned_turned(v[0], 0, 2, 3);
    lemma_turned_turned(v[1], 0, 2, 3);
    lemma_turned_turned(v[2], 0, 2, 3);
    assert({
        &&& v3[0] == turned(v[7], 1, 3)
        &&& v3[1] == turned(v[6], 1, 3)
        &&& v3[2] == turned(v[3], 1, 3)
        &&& v3[3] == turned(v[2], 2, 3)
        &&& v3[4] == turned(v[5], 1, 3)
        &&& v3[5] == turned(v[4], 2, 3)
        &&& v3[6] == turned(v[1], 2, 3)
        &&& v3[7] == turned(v[0], 2, 3)
    });
    let v4 = x_co(v3);
    lemma_x_co_slots(v3);
    lemma_turned_turned(v[4], 2, 1, 3);
    lemma_turned_turned(v[7], 1, 1, 3);
    lemma_turned_turned(v[6], 1, 1, 3);
    lemma_turned_turned(v[5], 1, 0, 3);
    lemma_turned_turned(v[2], 2, 0, 3);
    lemma_turned_turned(v[3], 1, 2, 3);
    lemma_turned_turned(v[0], 2, 2, 3);
    lemma_turned_turned(v[1], 2, 2, 3);
    assert({
        &&& v4[0] == turned(v[4], 0, 3)
        &&& v4[1] == turned(v[7], 2, 3)
        &&& v4[2] == turned(v[2], 2, 3)
        &&& v4[3] == turned(v[1], 1, 3)
        &&& v4[4] == turned(v[6], 2, 3)
        &&& v4[5] == turned(v[5], 1, 3)
        &&& v4[6] == turned(v[0], 1, 3)
        &&& v4[7] == turned(v[3], 0, 3)
    });
    let v5 = x_co(v4);
    lemma_x_co_slots(v4);
    lemma_turned_turned(v[5], 1, 1, 3);
    lemma_turned_turned(v[4], 0, 1, 3);
    lemma_turned_turned(v[7], 2, 1, 3);
    lemma_turned_turned(v[6], 2, 0, 3);
    lemma_turned_turned(v[1], 1, 0, 3);
    lemma_turned_turned(v[2], 2, 2, 3);
    lemma_turned_turned(v[3], 0, 2, 3);
    lemma_turned_turned(v[0], 1, 2, 3);
    assert({
        &&& v5[0] == turned(v[5], 2, 3)
        &&& v5[1] == turned(v[4], 1, 3)
        &&& v5[2] == turned(v[1], 1, 3)
        &&& v5[3] == turned(v[0], 0, 3)
        &&& v5[4] == turned(v[7], 0, 3)
        &&& v5[5] == turned(v[6], 2, 3)
        &&& v5[6] == turned(v[3], 2, 3)
        &&& v5[7] == turned(v[2], 1, 3)
    });
    lemma_z_co_slots(v);
    assert(v5 =~= z_co(v));
}

proof fn lemma_z_co_order(v: Seq<u8>)
    requires
        v.len() == 8,
        entries_below(v, 3),
    ensures
        z_co(z_co(z_co(z_co(v)))) == v,
{
    assert(v[0] < 3 && v[1] < 3 && v[2] < 3 && v[3] < 3 && v[4] < 3 && v[5] < 3 && v[6] < 3 && v[7]
        < 3);
    lemma_turned_four_times(v[0], 0, 2, 2, 2, 3);
    lemma_turned_four_times(v[3], 2, 2, 2, 0, 3);
    lemma_turned_four_times(v[6], 2, 2, 0, 2, 3);
    lemma_turned_four_times(v[5], 2, 0, 2, 2, 3);
    lemma_turned_four_times(v[1], 1, 1, 0, 1, 3);
    lemma_turned_four_times(v[2], 1, 0, 1, 1, 3);
    lemma_turned_four_times(v[7], 0, 1, 1, 1, 3);
    lemma_turned_four_times(v[4], 1, 1, 1, 0, 3);
    assert(z_co(z_co(z_co(z_co(v)))) =~= v);
}

/// `z`, which is put together from `x` and `y`, comes to those cycles.
pub proof fn lemma_z_cycles(s: CubeState)
    requires
        s.wf(),
    ensures
        s.z() == z_cycles(s),
{
    lemma_z_ep(s.ep);
    lemma_z_cp(s.cp);
    lemma_z_eo(s.eo);
    lemma_z_co(s.co);
}

/// `z` comes back after four times.
pub proof fn lemma_z_order(s: CubeState)
    requires
        s.wf(),
    ensures
        s.z().wf(),
        s.z().z().z().z() == s,
{
    lemma_turns_keep_wf(s);
    lemma_turns_keep_wf(s.z());
    lemma_turns_keep_wf(s.z().z());
    lemma_z_cycles(s);
    lemma_z_cycles(s.z());
    lemma_z_cycles(s.z().z());
    lemma_z_cycles(s.z().z().z());
    lemma_z_ep(s.ep);
    lemma_z_cp(s.cp);
    lemma_z_eo_order(s.eo);
    lemma_z_co_order(s.co);
}

/// Every face turn comes back after four times.
pub proof fn lemma_face_turns(s: CubeState)
    requires
        s.wf(),
    ensures
        s.l().l().l().l() == s,
        s.f().f().f().f() == s,
        s.r().r().r().r() == s,
        s.b().b().b().b() == s,
        s.d().d().d().d() == s,
{
    lemma_l_order(s);
    lemma_f_order(s);
    lemma_r_order(s);
    lemma_b_order(s);
    lemma_d_order(s);
}

/// The states on the way from `a` through four quarter turns of the upper
/// face are well-formed, and the fourth brings `a` back.
proof fn lemma_u_path(a: CubeState)
    requires
        a.wf(),
    ensures
        a.u().wf(),
        a.u().u().wf(),
        a.u().u().u().wf(),
        a.u().u().u().u() == a,
{
    lemma_moves_keep_wf(a);
    lemma_moves_keep_wf(a.u());
    lemma_moves_keep_wf(a.u().u());
    lemma_quarter_turns(a);
}

proof fn lemma_x_order(s: CubeState)
    requires
        s.wf(),
    ensures
        s.x().wf(),
        s.x().x().wf(),
        s.x().x().x().wf(),
        s.x().x().x().x() == s,
{
    lemma_moves_keep_wf(s);
    lemma_moves_keep_wf(s.x());
    lemma_moves_keep_wf(s.x().x());
    lemma_quarter_turns(s);
}

proof fn lemma_l_order(s: CubeState)
    requires
        s.wf(),
    ensures
        s.l().l().l().l() == s,
{
    let a = s.z();
    lemma_z_order(s);
    lemma_u_path(a);
    lemma_z_order(a.u());
    lemma_z_order(a.u().u());
    lemma_z_order(a.u().u().u());
    assert(s.l() == a.u().zp());
    assert(s.l().l() == a.u().u().zp());
    assert(s.l().l().l() == a.u().u().u().zp());
}

proof fn lemma_r_order(s: CubeState)
    requires
        s.wf(),
    ensures
        s.r().r().r().r() == s,
{
    lemma_z_order(s);
    lemma_z_order(s.z());
    lemma_z_order(s.z().z());
    let a = s.zp();
    lemma_u_path(a);
    lemma_z_order(a);
    lemma_z_order(a.u());
    lemma_z_order(a.u().u());
    lemma_z_order(a.u().u().u());
    assert(s.r() == a.u().z());
    assert(s.r().r() == a.u().u().z());
    assert(s.r().r().r() == a.u().u().u().z());
}

proof fn lemma_f_order(s: CubeState)
    requires
        s.wf(),
    ensures
        s.f().f().f().f() == s,
{
    let a = s.x();
    lemma_x_order(s);
    lemma_u_path(a);
    lemma_x_order(a.u());
    lemma_x_order(a.u().u());
    lemma_x_order(a.u().u().u());
    assert(s.f() == a.u().xp());
    assert(s.f().f() == a.u().u().xp());
    assert(s.f().f().f() == a.u().u().u().xp());
}

proof fn lemma_b_order(s: CubeState)
    requires
        s.wf(),
    ensures
        s.b().b().b().b() == s,
{
    lemma_x_order(s);
    let a = s.xp();
    lemma_u_path(a);
    lemma_x_order(a);
    lemma_x_order(a.u());
    lemma_x_order(a.u().u());
    lemma_x_order(a.u().u().u());
    assert(s.b() == a.u().x());
    assert(s.b().b() == a.u().u().x());
    assert(s.b().b().b() == a.u().u().u().x());
}

proof fn lemma_d_order(s: CubeState)
    requires
        s.wf(),
    ensures
        s.d().d().d().d() == s,
{
    lemma_x_order(s);
    let a = s.x().x();
    lemma_u_path(a);
    lemma_x_order(a);
    lemma_x_order(a.u());
    lemma_x_order(a.u().u());
    lemma_x_order(a.u().u().u());
    assert(s.d() == a.u().x().x());
    assert(s.d().d() == a.u().u().x().x());
    assert(s.d().d().d() == a.u().u().u().x().x());
}

/// Decoding a state number and encoding the result gives the number back.
pub proof fn lemma_encode_of_decode(s: CubeState, state: nat)
    requires
        state < STATE_SIZE,
        s.eo.len() == 12,
        s.co.len() == 8,
    ensures
        s.decode(state).encode() == state,
        s.wf() ==> s.decode(state).wf(),
{
    lemma_sizes();
    let e = state / CORNERS_SIZE as nat;
    let c = state % CORNERS_SIZE as nat;
    lemma_edges_of_coord(s, e);
    lemma_corners_of_coord(s.with_edges_coord(e), c);
}

/// Setting the edges from a coordinate and reading the coordinate gives
/// it back.
pub proof fn lemma_edges_of_coord(s: CubeState, coord: nat)
    requires
        coord < EDGES_SIZE,
        s.eo.len() == 12,
    ensures
        s.with_edges_coord(coord).edges_coord() == coord,
        s.with_edges_coord(coord).ep.len() == 12,
        s.with_edges_coord(coord).eo.len() == 12,
        is_arrangement(s.with_edges_coord(coord).ep, ep_counts()),
        entries_below(s.eo, 2) ==> entries_below(s.with_edges_coord(coord).eo, 2),
{
    lemma_sizes();
    let t = s.with_edges_coord(coord);
    lemma_multiset_rank_of_unrank(coord / EO_SIZE as nat, ep_counts(), 12);
    lemma_selected_value_of_fill(s.eo, t.ep, 1, 1, 2, coord % EO_SIZE as nat);
    assert(occurrences(t.ep, 1) == ep_counts()[1]);
}

/// Setting the corners from a coordinate and reading the coordinate gives
/// it back.
pub proof fn lemma_corners_of_coord(s: CubeState, coord: nat)
    requires
        coord < CORNERS_SIZE,
        s.co.len() == 8,
    ensures
        s.with_corners_coord(coord).corners_coord() == coord,
        s.with_corners_coord(coord).cp.len() == 8,
        s.with_corners_coord(coord).co.len() == 8,
        is_arrangement(s.with_corners_coord(coord).cp, cp_counts()),
        entries_below(s.co, 3) ==> entries_below(s.with_corners_coord(coord).co, 3),
{
    lemma_sizes();
    let t = s.with_corners_coord(coord);
    lemma_multiset_rank_of_unrank(coord / CO_SIZE as nat, cp_counts(), 8);
    lemma_selected_value_of_fill(s.co, t.cp, 0, 1, 3, coord % CO_SIZE as nat);
    assert(occurrences(t.cp, 0) == cp_counts()[0]);
    assert(occurrences(t.cp, 1) == cp_counts()[1]);
    crate::counting::lemma_count_below_monotonic(t.cp, 0, 1);
    crate::counting::lemma_count_below_monotonic(t.cp, 1, 2);
}

/// Encoding a well-formed cube and decoding the number over the same cube
/// changes nothing.
pub proof fn lemma_decode_of_encode(s: CubeState)
    requires
        s.wf(),
    ensures
        s.edges_coord() < EDGES_SIZE,
        s.corners_coord() < CORNERS_SIZE,
        s.encode() < STATE_SIZE,
        s.with_edges_coord(s.edges_coord()) == s,
        s.with_corners_coord(s.corners_coord()) == s,
        s.decode(s.encode()) == s,
{
    lemma_sizes();
    lemma_selected_slots(s);
    lemma_multiset_unrank_of_rank(s.ep, 3);
    lemma_multiset_unrank_of_rank(s.cp, 4);
    assert(counts_of(s.ep, 3) =~= ep_counts());
    assert(counts_of(s.cp, 4) =~= cp_counts());
    lemma_selected_value_bound(s.eo, s.ep, 1, 1, 2);
    lemma_selected_fill_of_value(s.eo, s.ep, 1, 1, 2);
    lemma_selected_value_bound(s.co, s.cp, 0, 1, 3);
    lemma_selected_fill_of_value(s.co, s.cp, 0, 1, 3);
    let e = s.edges_coord();
    let c = s.corners_coord();
    assert(e / 64 == s.ep_coord() && e % 64 == s.eo_coord() && e < 1182720) by (nonlinear_arith)
        requires
            e == s.ep_coord() * 64 + s.eo_coord(),
            s.eo_coord() < 64,
            s.ep_coord() < 18480,
    ;
    assert(c / 729 == s.cp_coord() && c % 729 == s.co_coord() && c < 816480) by (nonlinear_arith)
        requires
            c == s.cp_coord() * 729 + s.co_coord(),
            s.co_coord() < 729,
            s.cp_coord() < 1120,
    ;
    let n = s.encode();
    assert(n / 816480 == e && n % 816480 == c && n < 965667225600) by (nonlinear_arith)
        requires
            n == e * 816480 + c,
            c < 816480,
            e < 1182720,
    ;
    assert(s.with_edges_coord(e) == s);
    assert(s.with_corners_coord(c) == s);
}

/// The edges of the two cubes are in the same places, and the edges of
/// group 1, whose orientation shows, are turned the same way.
pub open spec fn edges_alike(s: CubeState, t: CubeState) -> bool {
    &&& s.ep == t.ep
    &&& s.ep.len() == 12 && s.eo.len() == 12 && t.eo.len() == 12
    &&& forall|i: int| 0 <= i < 12 && selected(#[trigger] s.ep[i], 1, 1) ==> s.eo[i] == t.eo[i]
}

/// The corners of the two cubes are in the same places, and the corners of the
/// groups 0 and 1, whose orientation shows, are turned the same way.
pub open spec fn corners_alike(s: CubeState, t: CubeState) -> bool {
    &&& s.cp == t.cp
    &&& s.cp.len() == 8 && s.co.len() == 8 && t.co.len() == 8
    &&& forall|i: int| 0 <= i < 8 && selected(#[trigger] s.cp[i], 0, 1) ==> s.co[i] == t.co[i]
}

/// Cubes that are alike have the same coordinates.
pub proof fn lemma_alike_coords(s: CubeState, t: CubeState)
    ensures
        edges_alike(s, t) ==> s.edges_coord() == t.edges_coord(),
        corners_alike(s, t) ==> s.corners_coord() == t.corners_coord(),
{
    if edges_alike(s, t) {
        lemma_selected_value_agree(s.eo, t.eo, s.ep, 1, 1, 2);
    }
    if corners_alike(s, t) {
        lemma_selected_value_agree(s.co, t.co, s.cp, 0, 1, 3);
    }
}

/// The three elementary moves keep cubes that are alike alike.
pub proof fn lemma_moves_keep_alike(s: CubeState, t: CubeState)
    ensures
        edges_alike(s, t) ==> edges_alike(s.u(), t.u()) && edges_alike(s.x(), t.x()) && edges_alike(
            s.y(),
            t.y(),
        ),
        corners_alike(s, t) ==> corners_alike(s.u(), t.u()) && corners_alike(s.x(), t.x())
            && corners_alike(s.y(), t.y()),
{
    reveal(u_eo);
    reveal(x_eo);
    reveal(y_eo);
    reveal(u_co);
    reveal(x_co);
    reveal(y_co);
}

proof fn lemma_z_keeps_alike(s: CubeState, t: CubeState)
    ensures
        edges_alike(s, t) ==> edges_alike(s.z(), t.z()),
        corners_alike(s, t) ==> corners_alike(s.z(), t.z()),
{
    lemma_moves_keep_alike(s, t);
    lemma_moves_keep_alike(s.x(), t.x());
    lemma_moves_keep_alike(s.x().y(), t.x().y());
    lemma_moves_keep_alike(s.x().y().x(), t.x().y().x());
    lemma_moves_keep_alike(s.x().y().x().x(), t.x().y().x().x());
}

proof fn lemma_zp_keeps_alike(s: CubeState, t: CubeState)
    ensures
        edges_alike(s, t) ==> edges_alike(s.zp(), t.zp()),
        corners_alike(s, t) ==> corners_alike(s.zp(), t.zp()),
{
    lemma_z_keeps_alike(s, t);
    lemma_z_keeps_alike(s.z(), t.z());
    lemma_z_keeps_alike(s.z().z(), t.z().z());
}

proof fn lemma_xp_keeps_alike(s: CubeState, t: CubeState)
    ensures
        edges_alike(s, t) ==> edges_alike(s.xp(), t.xp()),
        corners_alike(s, t) ==> corners_alike(s.xp(), t.xp()),
{
    lemma_moves_keep_alike(s, t);
    lemma_moves_keep_alike(s.x(), t.x());
    lemma_moves_keep_alike(s.x().x(), t.x().x());
}

/// The six face turns keep cubes that are alike alike.
pub proof fn lemma_turns_keep_alike(s: CubeState, t: CubeState)
    ensures
        edges_alike(s, t) ==> edges_alike(s.l(), t.l()) && edges_alike(s.f(), t.f()) && edges_alike(
            s.r(),
            t.r(),
        ) && edges_alike(s.b(), t.b()) && edges_alike(s.d(), t.d()),
        corners_alike(s, t) ==> corners_alike(s.l(), t.l()) && corners_alike(s.f(), t.f())
            && corners_alike(s.r(), t.r()) && corners_alike(s.b(), t.b()) && corners_alike(
            s.d(),
            t.d(),
        ),
{
    // l = z u zp
    lemma_z_keeps_alike(s, t);
    lemma_moves_keep_alike(s.z(), t.z());
    lemma_zp_keeps_alike(s.z().u(), t.z().u());
    // f = x u xp
    lemma_moves_keep_alike(s, t);
    lemma_moves_keep_alike(s.x(), t.x());
    lemma_xp_keeps_alike(s.x().u(), t.x().u());
    // r = zp u z
    lemma_zp_keeps_alike(s, t);
    lemma_moves_keep_alike(s.zp(), t.zp());
    lemma_z_keeps_alike(s.zp().u(), t.zp().u());
    // b = xp u x
    lemma_xp_keeps_alike(s, t);
    lemma_moves_keep_alike(s.xp(), t.xp());
    lemma_moves_keep_alike(s.xp().u(), t.xp().u());
    // d = x x u x x
    lemma_moves_keep_alike(s.x().x(), t.x().x());
    lemma_moves_keep_alike(s.x().x().u(), t.x().x().u());
    lemma_moves_keep_alike(s.x().x().u().x(), t.x().x().u().x());
}

/// The cube set up from the coordinates of a well-formed cube is like that
/// cube, whatever it was before.
pub proof fn lemma_decoded_alike(base: CubeState, s: CubeState)
    requires
        s.wf(),
        base.eo.len() == 12,
        base.co.len() == 8,
    ensures
        edges_alike(base.with_edges_coord(s.edges_coord()), s),
        corners_alike(base.with_corners_coord(s.corners_coord()), s),
{
    lemma_decode_of_encode(s);
    let e = s.edges_coord();
    let c = s.corners_coord();
    lemma_selected_fill_agree(base.eo, s.eo, s.ep, 1, 1, 2, e % EO_SIZE as nat);
    lemma_selected_fill_agree(base.co, s.co, s.cp, 0, 1, 3, c % CO_SIZE as nat);
    assert(base.with_edges_coord(e).ep == s.with_edges_coord(e).ep);
    assert(base.with_corners_coord(c).cp == s.with_corners_coord(c).cp);
}

/// Whether the orientation of the edge in place `i` of the solved cube
/// shows.
pub fn edge_orientation_shows(i: usize) -> (shows: bool)
    ensures
        shows == shows_edge_orientation(i as int),
{
    i == 1 || i == 2 || i == 4 || i == 6 || i == 10 || i == 11
}

/// Whether the orientation of the corner in place `i` of the solved cube
/// shows.
pub fn corner_orientation_shows(i: usize) -> (shows: bool)
    ensures
        shows == shows_corner_orientation(i as int),
{
    i == 0 || i == 1 || i == 2 || i == 5 || i == 6 || i == 7
}

impl Cube {
    /// The solved cube.
    pub fn new() -> (cube: Cube)
        ensures
            cube@ == CubeState::solved(),
            cube@.wf(),
    {
        let cube = Cube {
            ep: [0, 1, 1, 0, 1, 2, 1, 0, 2, 2, 1, 1],
            eo: [0; 12],
            cp: [0, 1, 0, 2, 3, 1, 0, 1],
            co: [0; 8],
        };
        proof {
            assert(cube.ep@ =~= solved_ep());
            assert(cube.cp@ =~= solved_cp());
            assert(cube.eo@ =~= Seq::new(12, |i: int| 0u8));
            assert(cube.co@ =~= Seq::new(8, |i: int| 0u8));
            lemma_solved_wf();
        }
        cube
    }

    /// Whether the cube looks solved.
    pub fn is_solved(&self) -> (solved: bool)
        ensures
            solved == self@.is_solved(),
    {
        let ep: [u8; 12] = [0, 1, 1, 0, 1, 2, 1, 0, 2, 2, 1, 1];
        let cp: [u8; 8] = [0, 1, 0, 2, 3, 1, 0, 1];
        assert(ep@ =~= solved_ep());
        assert(cp@ =~= solved_cp());
        if !same(&self.ep, &ep) || !same(&self.cp, &cp) {
            return false;
        }
        let mut i: usize = 0;
        while i < 12
            invariant
                i <= 12,
                forall|j: int| 0 <= j < i && shows_edge_orientation(j) ==> self.eo@[j] == 0,
            decreases 12 - i,
        {
            if edge_orientation_shows(i) && self.eo[i] != 0 {
                return false;
            }
            i = i + 1;
        }
        let mut i: usize = 0;
        while i < 8
            invariant
                i <= 8,
                forall|j: int| 0 <= j < i && shows_corner_orientation(j) ==> self.co@[j] == 0,
            decreases 8 - i,
        {
            if corner_orientation_shows(i) && self.co[i] != 0 {
                return false;
            }
            i = i + 1;
        }
        true
    }

    /// A quarter turn of the upper face.
    pub fn u(&mut self)
        ensures
            final(self)@ == old(self)@.u(),
            old(self)@.wf() ==> final(self)@.wf(),
    {
        proof {
            reveal(u_eo);
            reveal(u_co);
            if self@.wf() {
                lemma_moves_keep_wf(self@);
            }
        }
        cycle4(&mut self.ep, 0, 1, 2, 3);
        cycle4(&mut self.eo, 0, 1, 2, 3);
        cycle4(&mut self.cp, 0, 1, 2, 3);
        twist4(&mut self.co, 0, 1, 2, 3, 1, 2, 2, 1, 3);
    }

    /// The whole cube turned a quarter about the axis through the right face.
    pub fn x(&mut self)
        ensures
            final(self)@ == old(self)@.x(),
            old(self)@.wf() ==> final(self)@.wf(),
    {
        proof {
            reveal(x_eo);
            reveal(x_co);
            if self@.wf() {
                lemma_moves_keep_wf(self@);
            }
        }
        cycle4(&mut self.ep, 0, 2, 8, 10);
        cycle4(&mut self.ep, 1, 5, 9, 4);
        cycle4(&mut self.ep, 3, 6, 11, 7);
        twist4(&mut self.eo, 0, 2, 8, 10, 0, 1, 1, 0, 2);
        cycle4(&mut self.eo, 1, 5, 9, 4);
        twist4(&mut self.eo, 3, 6, 11, 7, 0, 1, 0, 1, 2);
        cycle4(&mut self.cp, 0, 1, 4, 5);
        cycle4(&mut self.cp, 2, 7, 6, 3);
        twist4(&mut self.co, 0, 1, 4, 5, 1, 1, 1, 0, 3);
        twist4(&mut self.co, 2, 7, 6, 3, 0, 2, 2, 2, 3);
    }

    /// The whole cube turned a quarter about the axis through the upper face.
    pub fn y(&mut self)
        ensures
            final(self)@ == old(self)@.y(),
            old(self)@.wf() ==> final(self)@.wf(),
    {
        proof {
            reveal(y_eo);
            reveal(y_co);
            if self@.wf() {
                lemma_moves_keep_wf(self@);
            }
        }
        cycle4(&mut self.ep, 0, 1, 2, 3);
        cycle4(&mut self.ep, 4, 5, 6, 7);
        cycle4(&mut self.ep, 8, 11, 10, 9);
        cycle4(&mut self.eo, 0, 1, 2, 3);
        twist4(&mut self.eo, 4, 5, 6, 7, 1, 1, 0, 0, 2);
        twist4(&mut self.eo, 8, 11, 10, 9, 0, 1, 0, 1, 2);
        cycle4(&mut self.cp, 0, 1, 2, 3);
        cycle4(&mut self.cp, 4, 7, 6, 5);
        twist4(&mut self.co, 0, 1, 2, 3, 1, 2, 2, 1, 3);
        twist4(&mut self.co, 4, 7, 6, 5, 2, 2, 1, 1, 3);
    }

    /// The whole cube turned a quarter about the axis through the front face.
    pub fn z(&mut self)
        ensures
            final(self)@ == old(self)@.z(),
            old(self)@.wf() ==> final(self)@.wf(),
    {
        self.x();
        self.y();
        self.x();
        self.x();
        self.x();
    }

    /// `x` the other way.
    pub fn xp(&mut self)
        ensures
            final(self)@ == old(self)@.xp(),
            old(self)@.wf() ==> final(self)@.wf(),
    {
        self.x();
        self.x();
        self.x();
    }

    /// `y` the other way.
    pub fn yp(&mut self)
        ensures
            final(self)@ == old(self)@.yp(),
            old(self)@.wf() ==> final(self)@.wf(),
    {
        self.y();
        self.y();
        self.y();
    }

    /// `z` the other way.
    pub fn zp(&mut self)
        ensures
            final(self)@ == old(self)@.zp(),
            old(self)@.wf() ==> final(self)@.wf(),
    {
        self.z();
        self.z();
        self.z();
    }

    /// A quarter turn of the left face: the left face is brought up, turned, and brought back.
    pub fn l(&mut self)
        ensures
            final(self)@ == old(self)@.l(),
            old(self)@.wf() ==> final(self)@.wf(),
    {
        self.z();
        self.u();
        self.zp();
    }

    /// A quarter turn of the front face.
    pub fn f(&mut self)
        ensures
            final(self)@ == old(self)@.f(),
            old(self)@.wf() ==> final(self)@.wf(),
    {
        self.x();
        self.u();
        self.xp();
    }

    /// A quarter turn of the right face.
    pub fn r(&mut self)
        ensures
            final(self)@ == old(self)@.r(),
            old(self)@.wf() ==> final(self)@.wf(),
    {
        self.zp();
        self.u();
        self.z();
    }

    /// A quarter turn of the back face.
    pub fn b(&mut self)
        ensures
            final(self)@ == old(self)@.b(),
            old(self)@.wf() ==> final(self)@.wf(),
    {
        self.xp();
        self.u();
        self.x();
    }

    /// A quarter turn of the lower face.
    pub fn d(&mut self)
        ensures
            final(self)@ == old(self)@.d(),
            old(self)@.wf() ==> final(self)@.wf(),
    {
        self.x();
        self.x();
        self.u();
        self.x();
        self.x();
    }

    /// `u` the other way.
    pub fn up(&mut self)
        ensures
            final(self)@ == old(self)@.up(),
            old(self)@.wf() ==> final(self)@.wf(),
    {
        self.u();
        self.u();
        self.u();
    }

    /// `l` the other way.
    pub fn lp(&mut self)
        ensures
            final(self)@ == old(self)@.lp(),
            old(self)@.wf() ==> final(self)@.wf(),
    {
        self.l();
        self.l();
        self.l();
    }

    /// `f` the other way.
    pub fn fp(&mut self)
        ensures
            final(self)@ == old(self)@.fp(),
            old(self)@.wf() ==> final(self)@.wf(),
    {
        self.f();
        self.f();
        self.f();
    }

    /// `r` the other way.
    pub fn rp(&mut self)
        ensures
            final(self)@ == old(self)@.rp(),
            old(self)@.wf() ==> final(self)@.wf(),
    {
        self.r();
        self.r();
        self.r();
    }

    /// `b` the other way.
    pub fn bp(&mut self)
        ensures
            final(self)@ == old(self)@.bp(),
            old(self)@.wf() ==> final(self)@.wf(),
    {
        self.b();
        self.b();
        self.b();
    }

    /// `d` the other way.
    pub fn dp(&mut self)
        ensures
            final(self)@ == old(self)@.dp(),
            old(self)@.wf() ==> final(self)@.wf(),
    {
        self.d();
        self.d();
        self.d();
    }

    /// The coordinate of the places of the edges.
    pub fn ep_coord(&self) -> (coord: u32)
        requires
            self@.wf(),
        ensures
            coord == self@.ep_coord(),
            coord < EP_SIZE,
    {
        proof {
            lemma_sizes();
        }
        encode_multiset(&self.ep, &ep_sizes()) as u32
    }

    /// Depends on the places of the edges.
    pub fn eo_coord(&self) -> (coord: u32)
        requires
            self@.wf(),
        ensures
            coord == self@.eo_coord(),
            coord < EO_SIZE,
    {
        proof {
            lemma_sizes();
            lemma_selected_slots(self@);
        }
        encode_selected(&self.eo, &self.ep, 1, 1, 2)
    }

    /// The coordinate of the places of the corners.
    pub fn cp_coord(&self) -> (coord: u32)
        requires
            self@.wf(),
        ensures
            coord == self@.cp_coord(),
            coord < CP_SIZE,
    {
        proof {
            lemma_sizes();
        }
        encode_multiset(&self.cp, &cp_sizes()) as u32
    }

    /// Depends on the places of the corners.
    pub fn co_coord(&self) -> (coord: u32)
        requires
            self@.wf(),
        ensures
            coord == self@.co_coord(),
            coord < CO_SIZE,
    {
        proof {
            lemma_sizes();
            lemma_selected_slots(self@);
        }
        encode_selected(&self.co, &self.cp, 0, 1, 3)
    }

    /// Sets the places of the edges from a coordinate.
    pub fn set_ep_coord(&mut self, coord: u32)
        requires
            coord < EP_SIZE,
        ensures
            final(self)@ == (CubeState {
                ep: multiset_unrank(coord as nat, ep_counts(), 12),
                ..old(self)@
            }),
            is_arrangement(final(self).ep@, ep_counts()),
            final(self)@.ep_coord() == coord,
    {
        proof {
            lemma_sizes();
        }
        self.ep = decode_multiset(coord as u64, &ep_sizes());
    }

    /// Depends on the places of the edges, which have to be set before.
    pub fn set_eo_coord(&mut self, coord: u32)
        ensures
            final(self)@ == (CubeState {
                eo: selected_fill(old(self).eo@, old(self).ep@, 1, 1, 2, coord as nat),
                ..old(self)@
            }),
            entries_below(old(self).eo@, 2) ==> entries_below(final(self).eo@, 2),
            coord < EO_SIZE && is_arrangement(old(self).ep@, ep_counts()) ==> final(self)@.eo_coord()
                == coord,
    {
        proof {
            lemma_sizes();
            if is_arrangement(self.ep@, ep_counts()) {
                assert(occurrences(self.ep@, 1) == ep_counts()[1]);
            }
        }
        decode_selected(&mut self.eo, &self.ep, 1, 1, 2, coord);
    }

    /// Sets the places of the corners from a coordinate.
    pub fn set_cp_coord(&mut self, coord: u32)
        requires
            coord < CP_SIZE,
        ensures
            final(self)@ == (CubeState {
                cp: multiset_unrank(coord as nat, cp_counts(), 8),
                ..old(self)@
            }),
            is_arrangement(final(self).cp@, cp_counts()),
            final(self)@.cp_coord() == coord,
    {
        proof {
            lemma_sizes();
        }
        self.cp = decode_multiset(coord as u64, &cp_sizes());
    }

    /// Depends on the places of the corners, which have to be set before.
    pub fn set_co_coord(&mut self, coord: u32)
        ensures
            final(self)@ == (CubeState {
                co: selected_fill(old(self).co@, old(self).cp@, 0, 1, 3, coord as nat),
                ..old(self)@
            }),
            entries_below(old(self).co@, 3) ==> entries_below(final(self).co@, 3),
            coord < CO_SIZE && is_arrangement(old(self).cp@, cp_counts()) ==> final(self)@.co_coord()
                == coord,
    {
        proof {
            lemma_sizes();
            if is_arrangement(self.cp@, cp_counts()) {
                assert(occurrences(self.cp@, 0) == cp_counts()[0]);
                assert(occurrences(self.cp@, 1) == cp_counts()[1]);
                crate::counting::lemma_count_below_monotonic(self.cp@, 0, 1);
                crate::counting::lemma_count_below_monotonic(self.cp@, 1, 2);
            }
        }
        decode_selected(&mut self.co, &self.cp, 0, 1, 3, coord);
    }

    /// The edge coordinate.
    pub fn edges_coord(&self) -> (coord: u32)
        requires
            self@.wf(),
        ensures
            coord == self@.edges_coord(),
            coord < EDGES_SIZE,
    {
        self.ep_coord() * EO_SIZE + self.eo_coord()
    }

    /// The corner coordinate.
    pub fn corners_coord(&self) -> (coord: u32)
        requires
            self@.wf(),
        ensures
            coord == self@.corners_coord(),
            coord < CORNERS_SIZE,
    {
        self.cp_coord() * CO_SIZE + self.co_coord()
    }

    /// Sets the edges from a coordinate: the places first, then the
    /// orientations, which go by the places.
    pub fn set_edges_coord(&mut self, coord: u32)
        requires
            coord < EDGES_SIZE,
        ensures
            final(self)@ == old(self)@.with_edges_coord(coord as nat),
            final(self)@.edges_coord() == coord,
            old(self)@.wf() ==> final(self)@.wf(),
    {
        proof {
            lemma_edges_of_coord(self@, coord as nat);
        }
        self.set_ep_coord(coord / EO_SIZE);
        self.set_eo_coord(coord % EO_SIZE);
    }

    /// Sets the corners from a coordinate: the places first, then the
    /// orientations, which go by the places.
    pub fn set_corners_coord(&mut self, coord: u32)
        requires
            coord < CORNERS_SIZE,
        ensures
            final(self)@ == old(self)@.with_corners_coord(coord as nat),
            final(self)@.corners_coord() == coord,
            old(self)@.wf() ==> final(self)@.wf(),
    {
        proof {
            lemma_corners_of_coord(self@, coord as nat);
        }
        self.set_cp_coord(coord / CO_SIZE);
        self.set_co_coord(coord % CO_SIZE);
    }

    /// The state number.
    pub fn encode(&self) -> (state: u64)
        requires
            self@.wf(),
        ensures
            state == self@.encode(),
            state < STATE_SIZE,
    {
        self.edges_coord() as u64 * CORNERS_SIZE as u64 + self.corners_coord() as u64
    }

    /// Takes the cube to the state with the given number.
    pub fn decode(&mut self, coord: u64)
        requires
            coord < STATE_SIZE,
        ensures
            final(self)@ == old(self)@.decode(coord as nat),
            final(self)@.encode() == coord,
            old(self)@.wf() ==> final(self)@.wf(),
    {
        proof {
            lemma_encode_of_decode(self@, coord as nat);
        }
        self.set_edges_coord((coord / CORNERS_SIZE as u64) as u32);
        self.set_corners_coord((coord % CORNERS_SIZE as u64) as u32);
    }

    /// The cube that a pair of coordinates stands for.
    pub fn from(value: CoordCube<'_>) -> (cube: Cube)
        requires
            value.edges < EDGES_SIZE,
            value.corners < CORNERS_SIZE,
        ensures
            cube@ == CubeState::solved().with_edges_coord(value.edges as nat).with_corners_coord(
                value.corners as nat,
            ),
            cube@.wf(),
            cube@.edges_coord() == value.edges,
            cube@.corners_coord() == value.corners,
    {
        let mut cube = Cube::new();
        cube.set_edges_coord(value.edges);
        cube.set_corners_coord(value.corners);
        cube
    }
}

} // verus!
