//! What a breadth-first search over the edge permutations needs: the
//! neighbours of a state in each metric, and the search's settings.

use vstd::prelude::*;
use crate::cube_3x3_ep::coord_cube::CoordCube;
use crate::cube_3x3_ep::cube::{
    b_coord, d_coord, f_coord, l_coord, lemma_face_turn_order, r_coord, u_coord,
};
use crate::settings::{ChunkFilesBehavior, UpdateFilesBehavior};

verus! {

/// The number of states: every edge permutation is one.
pub const STATE_SIZE: u64 = 479001600;

pub const EXPANSION_NODES_HTM: usize = 18;

pub const EXPANSION_NODES_QTM: usize = 12;

pub const EXPANSION_NODES_UTM: usize = 6;

pub const CALLBACK_BOUND_HTM: usize = 11;

pub const CALLBACK_BOUND_QTM: usize = usize::MAX;

pub const CALLBACK_BOUND_UTM: usize = usize::MAX;

/// How moves are counted: any turn of a face as one (`Htm`), quarter turns
/// in either direction (`Qtm`), or quarter turns in one direction only
/// (`Utm`).
#[derive(Debug, Clone, Copy, PartialEq, Eq)]
pub enum Metric {
    Htm,
    Qtm,
    Utm,
}

/// The depth from which newly found states are reported.
pub fn callback_bound(metric: Metric) -> (bound: usize)
    ensures
        bound == match metric {
            Metric::Htm => CALLBACK_BOUND_HTM,
            Metric::Qtm => CALLBACK_BOUND_QTM,
            Metric::Utm => CALLBACK_BOUND_UTM,
        },
{
    match metric {
        Metric::Htm => CALLBACK_BOUND_HTM,
        Metric::Qtm => CALLBACK_BOUND_QTM,
        Metric::Utm => CALLBACK_BOUND_UTM,
    }
}

/// All chunks live under the first root directory.
pub fn chunk_root_idx(chunk_idx: usize) -> (root: usize)
    ensures
        root == 0,
{
    0
}

/// What becomes of the update files of a depth.
pub fn update_files_behavior(depth: usize) -> (behavior: UpdateFilesBehavior)
    ensures
        behavior == UpdateFilesBehavior::DontMerge,
{
    UpdateFilesBehavior::DontMerge
}

/// What becomes of the chunk files of a depth.
pub fn chunk_files_behavior(depth: usize) -> (behavior: ChunkFilesBehavior)
    ensures
        behavior == ChunkFilesBehavior::Delete,
{
    ChunkFilesBehavior::Delete
}

/// The neighbours of `node` in the half turn metric: each face turned by
/// one, two and three quarters, faces in the order U, L, F, R, B, D.
pub open spec fn expansion_htm(node: nat) -> Seq<nat> {
    seq![
        u_coord(node),
        u_coord(u_coord(node)),
        u_coord(u_coord(u_coord(node))),
        l_coord(node),
        l_coord(l_coord(node)),
        l_coord(l_coord(l_coord(node))),
        f_coord(node),
        f_coord(f_coord(node)),
        f_coord(f_coord(f_coord(node))),
        r_coord(node),
        r_coord(r_coord(node)),
        r_coord(r_coord(r_coord(node))),
        b_coord(node),
        b_coord(b_coord(node)),
        b_coord(b_coord(b_coord(node))),
        d_coord(node),
        d_coord(d_coord(node)),
        d_coord(d_coord(d_coord(node))),
    ]
}

/// The neighbours of `node` in the quarter turn metric: each face turned by
/// one and by three quarters.
pub open spec fn expansion_qtm(node: nat) -> Seq<nat> {
    seq![
        u_coord(node),
        u_coord(u_coord(u_coord(node))),
        l_coord(node),
        l_coord(l_coord(l_coord(node))),
        f_coord(node),
        f_coord(f_coord(f_coord(node))),
        r_coord(node),
        r_coord(r_coord(r_coord(node))),
        b_coord(node),
        b_coord(b_coord(b_coord(node))),
        d_coord(node),
        d_coord(d_coord(d_coord(node))),
    ]
}

/// The neighbours of `node` where only one direction of turning counts:
/// each face turned by three quarters.
pub open spec fn expansion_utm(node: nat) -> Seq<nat> {
    seq![
        u_coord(u_coord(u_coord(node))),
        l_coord(l_coord(l_coord(node))),
        f_coord(f_coord(f_coord(node))),
        r_coord(r_coord(r_coord(node))),
        b_coord(b_coord(b_coord(node))),
        d_coord(d_coord(d_coord(node))),
    ]
}

/// Writes the neighbours of `node` in the half turn metric to
/// `expanded_nodes`.
pub fn expand_htm(cube: &mut CoordCube<'_>, node: u64, expanded_nodes: &mut [u64; 18])
    requires
        old(cube).transposition_tables.wf(),
        node < STATE_SIZE,
    ensures
        final(cube).wf(),
        final(cube).transposition_tables == old(cube).transposition_tables,
        forall|i: int| 0 <= i < 18 ==> final(expanded_nodes)@[i] == expansion_htm(node as nat)[i],
{
    proof {
        lemma_face_turn_order(node as nat);
        lemma_face_turn_order(u_coord(node as nat));
        lemma_face_turn_order(u_coord(u_coord(node as nat)));
        lemma_face_turn_order(l_coord(node as nat));
        lemma_face_turn_order(l_coord(l_coord(node as nat)));
        lemma_face_turn_order(f_coord(node as nat));
        lemma_face_turn_order(f_coord(f_coord(node as nat)));
        lemma_face_turn_order(r_coord(node as nat));
        lemma_face_turn_order(r_coord(r_coord(node as nat)));
        lemma_face_turn_order(b_coord(node as nat));
        lemma_face_turn_order(b_coord(b_coord(node as nat)));
        lemma_face_turn_order(d_coord(node as nat));
        lemma_face_turn_order(d_coord(d_coord(node as nat)));
    }
    cube.decode(node);
    cube.u();
    expanded_nodes[0] = cube.encode();
    cube.u();
    expanded_nodes[1] = cube.encode();
    cube.u();
    expanded_nodes[2] = cube.encode();
    cube.u();
    cube.l();
    expanded_nodes[3] = cube.encode();
    cube.l();
    expanded_nodes[4] = cube.encode();
    cube.l();
    expanded_nodes[5] = cube.encode();
    cube.l();
    cube.f();
    expanded_nodes[6] = cube.encode();
    cube.f();
    expanded_nodes[7] = cube.encode();
    cube.f();
    expanded_nodes[8] = cube.encode();
    cube.f();
    cube.r();
    expanded_nodes[9] = cube.encode();
    cube.r();
    expanded_nodes[10] = cube.encode();
    cube.r();
    expanded_nodes[11] = cube.encode();
    cube.r();
    cube.b();
    expanded_nodes[12] = cube.encode();
    cube.b();
    expanded_nodes[13] = cube.encode();
    cube.b();
    expanded_nodes[14] = cube.encode();
    cube.b();
    cube.d();
    expanded_nodes[15] = cube.encode();
    cube.d();
    expanded_nodes[16] = cube.encode();
    cube.d();
    expanded_nodes[17] = cube.encode();
}

/// Writes the neighbours of `node` in the quarter turn metric to
/// `expanded_nodes`.
pub fn expand_qtm(cube: &mut CoordCube<'_>, node: u64, expanded_nodes: &mut [u64; 12])
    requires
        old(cube).transposition_tables.wf(),
        node < STATE_SIZE,
    ensures
        final(cube).wf(),
        final(cube).transposition_tables == old(cube).transposition_tables,
        forall|i: int| 0 <= i < 12 ==> final(expanded_nodes)@[i] == expansion_qtm(node as nat)[i],
{
    proof {
        lemma_face_turn_order(node as nat);
        lemma_face_turn_order(u_coord(node as nat));
        lemma_face_turn_order(u_coord(u_coord(node as nat)));
        lemma_face_turn_order(l_coord(node as nat));
        lemma_face_turn_order(l_coord(l_coord(node as nat)));
        lemma_face_turn_order(f_coord(node as nat));
        lemma_face_turn_order(f_coord(f_coord(node as nat)));
        lemma_face_turn_order(r_coord(node as nat));
        lemma_face_turn_order(r_coord(r_coord(node as nat)));
        lemma_face_turn_order(b_coord(node as nat));
        lemma_face_turn_order(b_coord(b_coord(node as nat)));
        lemma_face_turn_order(d_coord(node as nat));
        lemma_face_turn_order(d_coord(d_coord(node as nat)));
    }
    cube.decode(node);
    cube.u();
    expanded_nodes[0] = cube.encode();
    cube.u();
    cube.u();
    expanded_nodes[1] = cube.encode();
    cube.u();
    cube.l();
    expanded_nodes[2] = cube.encode();
    cube.l();
    cube.l();
    expanded_nodes[3] = cube.encode();
    cube.l();
    cube.f();
    expanded_nodes[4] = cube.encode();
    cube.f();
    cube.f();
    expanded_nodes[5] = cube.encode();
    cube.f();
    cube.r();
    expanded_nodes[6] = cube.encode();
    cube.r();
    cube.r();
    expanded_nodes[7] = cube.encode();
    cube.r();
    cube.b();
    expanded_nodes[8] = cube.encode();
    cube.b();
    cube.b();
    expanded_nodes[9] = cube.encode();
    cube.b();
    cube.d();
    expanded_nodes[10] = cube.encode();
    cube.d();
    cube.d();
    expanded_nodes[11] = cube.encode();
}

/// Writes the neighbours of `node`, where only one direction of turning
/// counts, to `expanded_nodes`.
pub fn expand_utm(cube: &mut CoordCube<'_>, node: u64, expanded_nodes: &mut [u64; 6])
    requires
        old(cube).transposition_tables.wf(),
        node < STATE_SIZE,
    ensures
        final(cube).wf(),
        final(cube).transposition_tables == old(cube).transposition_tables,
        forall|i: int| 0 <= i < 6 ==> final(expanded_nodes)@[i] == expansion_utm(node as nat)[i],
{
    proof {
        lemma_face_turn_order(node as nat);
        lemma_face_turn_order(u_coord(node as nat));
        lemma_face_turn_order(u_coord(u_coord(node as nat)));
        lemma_face_turn_order(l_coord(node as nat));
        lemma_face_turn_order(l_coord(l_coord(node as nat)));
        lemma_face_turn_order(f_coord(node as nat));
        lemma_face_turn_order(f_coord(f_coord(node as nat)));
        lemma_face_turn_order(r_coord(node as nat));
        lemma_face_turn_order(r_coord(r_coord(node as nat)));
        lemma_face_turn_order(b_coord(node as nat));
        lemma_face_turn_order(b_coord(b_coord(node as nat)));
        lemma_face_turn_order(d_coord(node as nat));
        lemma_face_turn_order(d_coord(d_coord(node as nat)));
    }
    cube.decode(node);
    cube.u();
    cube.u();
    cube.u();
    expanded_nodes[0] = cube.encode();
    cube.u();
    cube.l();
    cube.l();
    cube.l();
    expanded_nodes[1] = cube.encode();
    cube.l();
    cube.f();
    cube.f();
    cube.f();
    expanded_nodes[2] = cube.encode();
    cube.f();
    cube.r();
    cube.r();
    cube.r();
    expanded_nodes[3] = cube.encode();
    cube.r();
    cube.b();
    cube.b();
    cube.b();
    expanded_nodes[4] = cube.encode();
    cube.b();
    cube.d();
    cube.d();
    cube.d();
    expanded_nodes[5] = cube.encode();
}

} // verus!
