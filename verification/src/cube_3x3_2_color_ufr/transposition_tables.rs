//! The tables of the six face turns over the edge and the corner
//! coordinate.

use vstd::prelude::*;
use crate::cube_3x3_2_color_ufr::cube::{
    lemma_alike_coords, lemma_decode_of_encode, lemma_decoded_alike, lemma_moves_keep_alike,
    lemma_turns_keep_alike, Cube, CubeState, CORNERS_SIZE, EDGES_SIZE,
};
use crate::table::{build_table, tabulates};

verus! {

pub struct TranspositionTables {

    pub u_edges: Vec<u32>,
    pub u_corners: Vec<u32>,
    pub l_edges: Vec<u32>,
    pub l_corners: Vec<u32>,
    pub f_edges: Vec<u32>,
    pub f_corners: Vec<u32>,
    pub r_edges: Vec<u32>,
    pub r_corners: Vec<u32>,
    pub b_edges: Vec<u32>,
    pub b_corners: Vec<u32>,
    pub d_edges: Vec<u32>,
    pub d_corners: Vec<u32>,
}

/// The edge coordinate after a quarter turn of the upper face.
#[verifier::opaque]
pub open spec fn u_edges(coord: nat) -> nat {
    CubeState::solved().with_edges_coord(coord).u().edges_coord()
}

/// The corner coordinate after a quarter turn of the upper face.
#[verifier::opaque]
pub open spec fn u_corners(coord: nat) -> nat {
    CubeState::solved().with_corners_coord(coord).u().corners_coord()
}

/// The edge coordinate after a quarter turn of the left face.
#[verifier::opaque]
pub open spec fn l_edges(coord: nat) -> nat {
    CubeState::solved().with_edges_coord(coord).l().edges_coord()
}

/// The corner coordinate after a quarter turn of the left face.
#[verifier::opaque]
pub open spec fn l_corners(coord: nat) -> nat {
    CubeState::solved().with_corners_coord(coord).l().corners_coord()
}

/// The edge coordinate after a quarter turn of the front face.
#[verifier::opaque]
pub open spec fn f_edges(coord: nat) -> nat {
    CubeState::solved().with_edges_coord(coord).f().edges_coord()
}

/// The corner coordinate after a quarter turn of the front face.
#[verifier::opaque]
pub open spec fn f_corners(coord: nat) -> nat {
    CubeState::solved().with_corners_coord(coord).f().corners_coord()
}

/// The edge coordinate after a quarter turn of the right face.
#[verifier::opaque]
pub open spec fn r_edges(coord: nat) -> nat {
    CubeState::solved().with_edges_coord(coord).r().edges_coord()
}

/// The corner coordinate after a quarter turn of the right face.
#[verifier::opaque]
pub open spec fn r_corners(coord: nat) -> nat {
    CubeState::solved().with_corners_coord(coord).r().corners_coord()
}

/// The edge coordinate after a quarter turn of the back face.
#[verifier::opaque]
pub open spec fn b_edges(coord: nat) -> nat {
    CubeState::solved().with_edges_coord(coord).b().edges_coord()
}

/// The corner coordinate after a quarter turn of the back face.
#[verifier::opaque]
pub open spec fn b_corners(coord: nat) -> nat {
    CubeState::solved().with_corners_coord(coord).b().corners_coord()
}

/// The edge coordinate after a quarter turn of the lower face.
#[verifier::opaque]
pub open spec fn d_edges(coord: nat) -> nat {
    CubeState::solved().with_edges_coord(coord).d().edges_coord()
}

/// The corner coordinate after a quarter turn of the lower face.
#[verifier::opaque]
pub open spec fn d_corners(coord: nat) -> nat {
    CubeState::solved().with_corners_coord(coord).d().corners_coord()
}

/// The edge coordinate after a quarter turn of the upper face, worked out on the
/// cube itself.
pub fn u_edges_entry(coord: u32) -> (next: u32)
    requires
        coord < EDGES_SIZE,
    ensures
        next == u_edges(coord as nat),
        next < EDGES_SIZE,
{
    proof {
        reveal(u_edges);
    }
    let mut cube = Cube::new();
    cube.set_edges_coord(coord);
    cube.u();
    cube.edges_coord()
}

/// The corner coordinate after a quarter turn of the upper face, worked out on the
/// cube itself.
pub fn u_corners_entry(coord: u32) -> (next: u32)
    requires
        coord < CORNERS_SIZE,
    ensures
        next == u_corners(coord as nat),
        next < CORNERS_SIZE,
{
    proof {
        reveal(u_corners);
    }
    let mut cube = Cube::new();
    cube.set_corners_coord(coord);
    cube.u();
    cube.corners_coord()
}

/// The edge coordinate after a quarter turn of the left face, worked out on the
/// cube itself.
pub fn l_edges_entry(coord: u32) -> (next: u32)
    requires
        coord < EDGES_SIZE,
    ensures
        next == l_edges(coord as nat),
        next < EDGES_SIZE,
{
    proof {
        reveal(l_edges);
    }
    let mut cube = Cube::new();
    cube.set_edges_coord(coord);
    cube.l();
    cube.edges_coord()
}

/// The corner coordinate after a quarter turn of the left face, worked out on the
/// cube itself.
pub fn l_corners_entry(coord: u32) -> (next: u32)
    requires
        coord < CORNERS_SIZE,
    ensures
        next == l_corners(coord as nat),
        next < CORNERS_SIZE,
{
    proof {
        reveal(l_corners);
    }
    let mut cube = Cube::new();
    cube.set_corners_coord(coord);
    cube.l();
    cube.corners_coord()
}

/// The edge coordinate after a quarter turn of the front face, worked out on the
/// cube itself.
pub fn f_edges_entry(coord: u32) -> (next: u32)
    requires
        coord < EDGES_SIZE,
    ensures
        next == f_edges(coord as nat),
        next < EDGES_SIZE,
{
    proof {
        reveal(f_edges);
    }
    let mut cube = Cube::new();
    cube.set_edges_coord(coord);
    cube.f();
    cube.edges_coord()
}

/// The corner coordinate after a quarter turn of the front face, worked out on the
/// cube itself.
pub fn f_corners_entry(coord: u32) -> (next: u32)
    requires
        coord < CORNERS_SIZE,
    ensures
        next == f_corners(coord as nat),
        next < CORNERS_SIZE,
{
    proof {
        reveal(f_corners);
    }
    let mut cube = Cube::new();
    cube.set_corners_coord(coord);
    cube.f();
    cube.corners_coord()
}

/// The edge coordinate after a quarter turn of the right face, worked out on the
/// cube itself.
pub fn r_edges_entry(coord: u32) -> (next: u32)
    requires
        coord < EDGES_SIZE,
    ensures
        next == r_edges(coord as nat),
        next < EDGES_SIZE,
{
    proof {
        reveal(r_edges);
    }
    let mut cube = Cube::new();
    cube.set_edges_coord(coord);
    cube.r();
    cube.edges_coord()
}

/// The corner coordinate after a quarter turn of the right face, worked out on the
/// cube itself.
pub fn r_corners_entry(coord: u32) -> (next: u32)
    requires
        coord < CORNERS_SIZE,
    ensures
        next == r_corners(coord as nat),
        next < CORNERS_SIZE,
{
    proof {
        reveal(r_corners);
    }
    let mut cube = Cube::new();
    cube.set_corners_coord(coord);
    cube.r();
    cube.corners_coord()
}

/// The edge coordinate after a quarter turn of the back face, worked out on the
/// cube itself.
pub fn b_edges_entry(coord: u32) -> (next: u32)
    requires
        coord < EDGES_SIZE,
    ensures
        next == b_edges(coord as nat),
        next < EDGES_SIZE,
{
    proof {
        reveal(b_edges);
    }
    let mut cube = Cube::new();
    cube.set_edges_coord(coord);
    cube.b();
    cube.edges_coord()
}

/// The corner coordinate after a quarter turn of the back face, worked out on the
/// cube itself.
pub fn b_corners_entry(coord: u32) -> (next: u32)
    requires
        coord < CORNERS_SIZE,
    ensures
        next == b_corners(coord as nat),
        next < CORNERS_SIZE,
{
    proof {
        reveal(b_corners);
    }
    let mut cube = Cube::new();
    cube.set_corners_coord(coord);
    cube.b();
    cube.corners_coord()
}

/// The edge coordinate after a quarter turn of the lower face, worked out on the
/// cube itself.
pub fn d_edges_entry(coord: u32) -> (next: u32)
    requires
        coord < EDGES_SIZE,
    ensures
        next == d_edges(coord as nat),
        next < EDGES_SIZE,
{
    proof {
        reveal(d_edges);
    }
    let mut cube = Cube::new();
    cube.set_edges_coord(coord);
    cube.d();
    cube.edges_coord()
}

/// The corner coordinate after a quarter turn of the lower face, worked out on the
/// cube itself.
pub fn d_corners_entry(coord: u32) -> (next: u32)
    requires
        coord < CORNERS_SIZE,
    ensures
        next == d_corners(coord as nat),
        next < CORNERS_SIZE,
{
    proof {
        reveal(d_corners);
    }
    let mut cube = Cube::new();
    cube.set_corners_coord(coord);
    cube.d();
    cube.corners_coord()
}

impl TranspositionTables {
    /// Each table holds, for every coordinate, the coordinate after its
    /// face turn.
    pub open spec fn wf(&self) -> bool {
        &&& tabulates(self.u_edges@, EDGES_SIZE as nat, |c: nat| u_edges(c))
        &&& tabulates(self.u_corners@, CORNERS_SIZE as nat, |c: nat| u_corners(c))
        &&& tabulates(self.l_edges@, EDGES_SIZE as nat, |c: nat| l_edges(c))
        &&& tabulates(self.l_corners@, CORNERS_SIZE as nat, |c: nat| l_corners(c))
        &&& tabulates(self.f_edges@, EDGES_SIZE as nat, |c: nat| f_edges(c))
        &&& tabulates(self.f_corners@, CORNERS_SIZE as nat, |c: nat| f_corners(c))
        &&& tabulates(self.r_edges@, EDGES_SIZE as nat, |c: nat| r_edges(c))
        &&& tabulates(self.r_corners@, CORNERS_SIZE as nat, |c: nat| r_corners(c))
        &&& tabulates(self.b_edges@, EDGES_SIZE as nat, |c: nat| b_edges(c))
        &&& tabulates(self.b_corners@, CORNERS_SIZE as nat, |c: nat| b_corners(c))
        &&& tabulates(self.d_edges@, EDGES_SIZE as nat, |c: nat| d_edges(c))
        &&& tabulates(self.d_corners@, CORNERS_SIZE as nat, |c: nat| d_corners(c))
    }

    /// Builds the twelve tables.
    pub fn new() -> (tables: Self)
        ensures
            tables.wf(),
    {
        let u_edges = build_table(EDGES_SIZE, u_edges_entry);
        let u_corners = build_table(CORNERS_SIZE, u_corners_entry);
        let l_edges = build_table(EDGES_SIZE, l_edges_entry);
        let l_corners = build_table(CORNERS_SIZE, l_corners_entry);
        let f_edges = build_table(EDGES_SIZE, f_edges_entry);
        let f_corners = build_table(CORNERS_SIZE, f_corners_entry);
        let r_edges = build_table(EDGES_SIZE, r_edges_entry);
        let r_corners = build_table(CORNERS_SIZE, r_corners_entry);
        let b_edges = build_table(EDGES_SIZE, b_edges_entry);
        let b_corners = build_table(CORNERS_SIZE, b_corners_entry);
        let d_edges = build_table(EDGES_SIZE, d_edges_entry);
        let d_corners = build_table(CORNERS_SIZE, d_corners_entry);
        Self {
            u_edges,
            u_corners,
            l_edges,
            l_corners,
            f_edges,
            f_corners,
            r_edges,
            r_corners,
            b_edges,
            b_corners,
            d_edges,
            d_corners,
        }
    }
}

/// The tables follow the cube: looking a face turn up at the coordinates
/// of a well-formed cube gives the coordinates of the cube after the turn.
pub proof fn lemma_tables_follow(s: CubeState)
    requires
        s.wf(),
    ensures
        s.edges_coord() < EDGES_SIZE,
        s.corners_coord() < CORNERS_SIZE,
        u_edges(s.edges_coord()) == s.u().edges_coord(),
        u_corners(s.corners_coord()) == s.u().corners_coord(),
        l_edges(s.edges_coord()) == s.l().edges_coord(),
        l_corners(s.corners_coord()) == s.l().corners_coord(),
        f_edges(s.edges_coord()) == s.f().edges_coord(),
        f_corners(s.corners_coord()) == s.f().corners_coord(),
        r_edges(s.edges_coord()) == s.r().edges_coord(),
        r_corners(s.corners_coord()) == s.r().corners_coord(),
        b_edges(s.edges_coord()) == s.b().edges_coord(),
        b_corners(s.corners_coord()) == s.b().corners_coord(),
        d_edges(s.edges_coord()) == s.d().edges_coord(),
        d_corners(s.corners_coord()) == s.d().corners_coord(),
{
    reveal(u_edges);
    reveal(u_corners);
    reveal(l_edges);
    reveal(l_corners);
    reveal(f_edges);
    reveal(f_corners);
    reveal(r_edges);
    reveal(r_corners);
    reveal(b_edges);
    reveal(b_corners);
    reveal(d_edges);
    reveal(d_corners);
    lemma_decode_of_encode(s);
    let e = CubeState::solved().with_edges_coord(s.edges_coord());
    let c = CubeState::solved().with_corners_coord(s.corners_coord());
    lemma_decoded_alike(CubeState::solved(), s);
    lemma_moves_keep_alike(e, s);
    lemma_moves_keep_alike(c, s);
    lemma_turns_keep_alike(e, s);
    lemma_turns_keep_alike(c, s);
    lemma_alike_coords(e.u(), s.u());
    lemma_alike_coords(c.u(), s.u());
    lemma_alike_coords(e.l(), s.l());
    lemma_alike_coords(c.l(), s.l());
    lemma_alike_coords(e.f(), s.f());
    lemma_alike_coords(c.f(), s.f());
    lemma_alike_coords(e.r(), s.r());
    lemma_alike_coords(c.r(), s.r());
    lemma_alike_coords(e.b(), s.b());
    lemma_alike_coords(c.b(), s.b());
    lemma_alike_coords(e.d(), s.d());
    lemma_alike_coords(c.d(), s.d());
}

} // verus!
