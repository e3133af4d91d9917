//! What a breadth-first search over the states needs: the neighbours of a
//! state, and the search's settings.

use vstd::prelude::*;
use crate::cube_3x3_2_color_ufb::coord_cube::{CoordCube, Coords};
use crate::cube_3x3_2_color_ufb::cube::STATE_SIZE;
use crate::settings::{
    chunk_files_above, chunk_root_seven_over_four, reports_above, seven_over_four,
    ChunkFilesBehavior, UpdateFilesBehavior,
};

verus! {

pub const EXPANSION_NODES: usize = 18;

/// The depth above which newly found states are reported.
pub const CALLBACK_BOUND: usize = 12;

/// The depth above which the files of a depth are kept.
pub const PROVIDER_BOUND: usize = 6;

/// Whether a state first seen at `depth` is reported.
pub fn new_state_is_reported(depth: usize) -> (report: bool)
    ensures
        report == (depth > CALLBACK_BOUND),
{
    reports_above(depth, CALLBACK_BOUND)
}

/// Four drives take seven chunks in turn.
pub fn chunk_root_idx(chunk_idx: usize) -> (root: usize)
    ensures
        root == seven_over_four(chunk_idx as nat),
{
    chunk_root_seven_over_four(chunk_idx)
}

/// The update files of every depth are merged and kept.
pub fn update_files_behavior(depth: usize) -> (behavior: UpdateFilesBehavior)
    ensures
        behavior == UpdateFilesBehavior::MergeAndKeep,
{
    UpdateFilesBehavior::MergeAndKeep
}

/// What becomes of the chunk files of a depth.
pub fn chunk_files_behavior(depth: usize) -> (behavior: ChunkFilesBehavior)
    ensures
        behavior == if depth > PROVIDER_BOUND {
            ChunkFilesBehavior::Keep
        } else {
            ChunkFilesBehavior::Delete
        },
{
    chunk_files_above(depth, PROVIDER_BOUND)
}

/// The neighbours of `node`: each face, in the order U, L, F, R, B, D,
/// turned by one, two and three quarters. A fourth quarter comes before
/// the next face is turned.
pub open spec fn expansion(node: nat) -> Seq<nat> {
    let start = Coords::of(node);
    let u1 = start.u();
    let u2 = u1.u();
    let u3 = u2.u();
    let u4 = u3.u();
    let l1 = u4.l();
    let l2 = l1.l();
    let l3 = l2.l();
    let l4 = l3.l();
    let f1 = l4.f();
    let f2 = f1.f();
    let f3 = f2.f();
    let f4 = f3.f();
    let r1 = f4.r();
    let r2 = r1.r();
    let r3 = r2.r();
    let r4 = r3.r();
    let b1 = r4.b();
    let b2 = b1.b();
    let b3 = b2.b();
    let b4 = b3.b();
    let d1 = b4.d();
    let d2 = d1.d();
    let d3 = d2.d();
    let d4 = d3.d();
    seq![
        u1.encode(),
        u2.encode(),
        u3.encode(),
        l1.encode(),
        l2.encode(),
        l3.encode(),
        f1.encode(),
        f2.encode(),
        f3.encode(),
        r1.encode(),
        r2.encode(),
        r3.encode(),
        b1.encode(),
        b2.encode(),
        b3.encode(),
        d1.encode(),
        d2.encode(),
        d3.encode(),
    ]
}

/// Writes the neighbours of `node` to `expanded_nodes`.
pub fn expand(cube: &mut CoordCube<'_>, node: u64, expanded_nodes: &mut [u64; 18])
    requires
        old(cube).transposition_tables.wf(),
        node < STATE_SIZE,
    ensures
        final(cube).wf(),
        final(cube).transposition_tables == old(cube).transposition_tables,
        forall|i: int| 0 <= i < 18 ==> final(expanded_nodes)@[i] == expansion(node as nat)[i],
{
    cube.decode(node);
    cube.u();
    expanded_nodes[0] = cube.encode();
    cube.u();
    expanded_nodes[1] = cube.encode();
    cube.u();
    expanded_nodes[2] = cube.encode();
    cube.u();
    cube.l();
    expanded_nodes[3] = cube.encode();
    cube.l();
    expanded_nodes[4] = cube.encode();
    cube.l();
    expanded_nodes[5] = cube.encode();
    cube.l();
    cube.f();
    expanded_nodes[6] = cube.encode();
    cube.f();
    expanded_nodes[7] = cube.encode();
    cube.f();
    expanded_nodes[8] = cube.encode();
    cube.f();
    cube.r();
    expanded_nodes[9] = cube.encode();
    cube.r();
    expanded_nodes[10] = cube.encode();
    cube.r();
    expanded_nodes[11] = cube.encode();
    cube.r();
    cube.b();
    expanded_nodes[12] = cube.encode();
    cube.b();
    expanded_nodes[13] = cube.encode();
    cube.b();
    expanded_nodes[14] = cube.encode();
    cube.b();
    cube.d();
    expanded_nodes[15] = cube.encode();
    cube.d();
    expanded_nodes[16] = cube.encode();
    cube.d();
    expanded_nodes[17] = cube.encode();
}

} // verus!
