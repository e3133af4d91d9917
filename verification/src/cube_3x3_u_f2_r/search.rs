//! What a breadth-first search over the states needs: the neighbours of a
//! state, and the search's settings.

use vstd::prelude::*;
use crate::cube_3x3_u_f2_r::coord_cube::CoordCube;
use crate::cube_3x3_u_f2_r::cube::{lemma_sizes, CORNERS_SIZE, CO_SIZE, STATE_SIZE};
use crate::cube_3x3_u_f2_r::transposition_tables::{
    f2_corners, f2_edges_even, f2_edges_odd, lemma_corners_order, lemma_edges_order, r_corners,
    r_edges, u_corners, u_edges,
};
use crate::parity::even;
use crate::permutation::lehmer_unrank;
use crate::settings::{
    chunk_files_from, chunk_root_round_robin, reports_from, update_files_from, ChunkFilesBehavior,
    UpdateFilesBehavior,
};

verus! {

pub const EXPANSION_NODES: usize = 7;

/// The depth from which newly found states are reported.
pub const CALLBACK_BOUND: usize = 21;

/// The depth from which the files of a depth are kept.
pub const PROVIDER_BOUND: usize = 12;

/// Whether a state first seen at `depth` is reported.
pub fn new_state_is_reported(depth: usize) -> (report: bool)
    ensures
        report == (depth >= CALLBACK_BOUND),
{
    reports_from(depth, CALLBACK_BOUND)
}

/// The four drives take the chunks in turn.
pub fn chunk_root_idx(chunk_idx: usize) -> (root: usize)
    ensures
        root == chunk_idx % 4,
{
    chunk_root_round_robin(chunk_idx, 4)
}

/// What becomes of the update files of a depth.
pub fn update_files_behavior(depth: usize) -> (behavior: UpdateFilesBehavior)
    ensures
        behavior == if depth >= PROVIDER_BOUND {
            UpdateFilesBehavior::MergeAndKeep
        } else {
            UpdateFilesBehavior::DontMerge
        },
{
    update_files_from(depth, PROVIDER_BOUND)
}

/// What becomes of the chunk files of a depth.
pub fn chunk_files_behavior(depth: usize) -> (behavior: ChunkFilesBehavior)
    ensures
        behavior == if depth >= PROVIDER_BOUND {
            ChunkFilesBehavior::Keep
        } else {
            ChunkFilesBehavior::Delete
        },
{
    chunk_files_from(depth, PROVIDER_BOUND)
}

/// A state number put together from an edge and a corner coordinate.
pub open spec fn joined(edges: nat, corners: nat) -> nat {
    edges * CORNERS_SIZE as nat + corners
}

/// The neighbours of `node`: U by one, two and three quarters, R likewise,
/// and F2.
pub open spec fn expansion(node: nat) -> Seq<nat> {
    let e = node / CORNERS_SIZE as nat;
    let c = node % CORNERS_SIZE as nat;
    let is_even = even(lehmer_unrank(c / CO_SIZE as nat, 7));
    seq![
        joined(u_edges(e), u_corners(c)),
        joined(u_edges(u_edges(e)), u_corners(u_corners(c))),
        joined(u_edges(u_edges(u_edges(e))), u_corners(u_corners(u_corners(c)))),
        joined(r_edges(e), r_corners(c)),
        joined(r_edges(r_edges(e)), r_corners(r_corners(c))),
        joined(r_edges(r_edges(r_edges(e))), r_corners(r_corners(r_corners(c)))),
        joined(
            if is_even {
                f2_edges_even(e)
            } else {
                f2_edges_odd(e)
            },
            f2_corners(c),
        ),
    ]
}

/// Writes the neighbours of `node` to `expanded_nodes`.
pub fn expand(cube: &mut CoordCube<'_>, node: u64, expanded_nodes: &mut [u64; 7])
    requires
        old(cube).transposition_tables.wf(),
        node < STATE_SIZE,
    ensures
        final(cube).wf(),
        final(cube).transposition_tables == old(cube).transposition_tables,
        forall|i: int| 0 <= i < 7 ==> final(expanded_nodes)@[i] == expansion(node as nat)[i],
{
    proof {
        lemma_sizes();
        lemma_edges_order((node / CORNERS_SIZE as u64) as nat);
        lemma_corners_order((node % CORNERS_SIZE as u64) as nat);
    }
    cube.decode(node);
    cube.u();
    expanded_nodes[0] = cube.encode();
    cube.u();
    expanded_nodes[1] = cube.encode();
    cube.u();
    expanded_nodes[2] = cube.encode();
    cube.u();
    cube.r();
    expanded_nodes[3] = cube.encode();
    cube.r();
    expanded_nodes[4] = cube.encode();
    cube.r();
    expanded_nodes[5] = cube.encode();
    cube.r();
    cube.f2();
    expanded_nodes[6] = cube.encode();
}

} // verus!
