//! What a breadth-first search over the states needs: the neighbours of a
//! state for each choice of moves and metric, and the search's settings.

use vstd::prelude::*;
use crate::cube_3x3_u_r::coord_cube::{CoordCube, Coords};
use crate::cube_3x3_u_r::cube::STATE_SIZE;
use crate::settings::{
    chunk_files_from, chunk_root_seven_over_four, reports_from, seven_over_four, update_files_from,
    ChunkFilesBehavior, UpdateFilesBehavior,
};

verus! {

pub const EXPANSION_NODES_HTM: usize = 6;

pub const EXPANSION_NODES_QTM: usize = 4;

pub const EXPANSION_NODES_U_R_RW_HTM: usize = 9;

pub const CALLBACK_BOUND_HTM: usize = 30;

pub const CALLBACK_BOUND_QTM: usize = 37;

pub const CALLBACK_BOUND_U_R_RW_HTM: usize = 22;

pub const PROVIDER_BOUND_HTM: usize = 20;

pub const PROVIDER_BOUND_QTM: usize = 25;

pub const PROVIDER_BOUND_U_R_RW_HTM: usize = 16;

/// How moves are counted: any turn as one (`Htm`), or quarter turns
/// (`Qtm`).
#[derive(Debug, Clone, Copy, PartialEq, Eq)]
pub enum Metric {
    Htm,
    Qtm,
}

/// The moves that the search may make: U and r (`UR`), or U, R and r
/// (`URRw`).
#[derive(Debug, Clone, Copy, PartialEq, Eq)]
pub enum Generators {
    UR,
    URRw,
}

/// The depth from which newly found states are reported, where the search
/// is set up for the metric and the moves; none for quarter turns with U,
/// R and r, for which it is not.
pub fn callback_bound(metric: Metric, generators: Generators) -> (bound: Option<usize>)
    ensures
        bound == match (metric, generators) {
            (Metric::Htm, Generators::UR) => Some(CALLBACK_BOUND_HTM),
            (Metric::Qtm, Generators::UR) => Some(CALLBACK_BOUND_QTM),
            (Metric::Htm, Generators::URRw) => Some(CALLBACK_BOUND_U_R_RW_HTM),
            (Metric::Qtm, Generators::URRw) => None,
        },
{
    match (metric, generators) {
        (Metric::Htm, Generators::UR) => Some(CALLBACK_BOUND_HTM),
        (Metric::Qtm, Generators::UR) => Some(CALLBACK_BOUND_QTM),
        (Metric::Htm, Generators::URRw) => Some(CALLBACK_BOUND_U_R_RW_HTM),
        (Metric::Qtm, Generators::URRw) => None,
    }
}

/// The depth from which the files of a depth are kept, where the search is
/// set up for the metric and the moves.
pub fn provider_bound(metric: Metric, generators: Generators) -> (bound: Option<usize>)
    ensures
        bound == match (metric, generators) {
            (Metric::Htm, Generators::UR) => Some(PROVIDER_BOUND_HTM),
            (Metric::Qtm, Generators::UR) => Some(PROVIDER_BOUND_QTM),
            (Metric::Htm, Generators::URRw) => Some(PROVIDER_BOUND_U_R_RW_HTM),
            (Metric::Qtm, Generators::URRw) => None,
        },
{
    match (metric, generators) {
        (Metric::Htm, Generators::UR) => Some(PROVIDER_BOUND_HTM),
        (Metric::Qtm, Generators::UR) => Some(PROVIDER_BOUND_QTM),
        (Metric::Htm, Generators::URRw) => Some(PROVIDER_BOUND_U_R_RW_HTM),
        (Metric::Qtm, Generators::URRw) => None,
    }
}

/// Whether a state first seen at `depth` is reported.
pub fn new_state_is_reported(depth: usize, bound: usize) -> (report: bool)
    ensures
        report == (depth >= bound),
{
    reports_from(depth, bound)
}

/// Four drives take seven chunks in turn.
pub fn chunk_root_idx(chunk_idx: usize) -> (root: usize)
    ensures
        root == seven_over_four(chunk_idx as nat),
{
    chunk_root_seven_over_four(chunk_idx)
}

/// What becomes of the update files of a depth.
pub fn update_files_behavior(depth: usize, bound: usize) -> (behavior: UpdateFilesBehavior)
    ensures
        behavior == if depth >= bound {
            UpdateFilesBehavior::MergeAndKeep
        } else {
            UpdateFilesBehavior::DontMerge
        },
{
    update_files_from(depth, bound)
}

/// What becomes of the chunk files of a depth.
pub fn chunk_files_behavior(depth: usize, bound: usize) -> (behavior: ChunkFilesBehavior)
    ensures
        behavior == if depth >= bound {
            ChunkFilesBehavior::Keep
        } else {
            ChunkFilesBehavior::Delete
        },
{
    chunk_files_from(depth, bound)
}

/// The neighbours of `node` under U and r in the half turn metric: U by
/// one, two and three quarters, and, after a fourth quarter of U, r
/// likewise.
pub open spec fn expansion_htm(node: nat) -> Seq<nat> {
    let start = Coords::of(node);
    let u1 = start.u();
    let u2 = u1.u();
    let u3 = u2.u();
    let u4 = u3.u();
    let rw1 = u4.rw();
    let rw2 = rw1.rw();
    let rw3 = rw2.rw();
    seq![u1.encode(), u2.encode(), u3.encode(), rw1.encode(), rw2.encode(), rw3.encode()]
}

/// The neighbours of `node` under U and r in the quarter turn metric: U by
/// one and by three quarters, and, after a fourth quarter of U, r
/// likewise.
pub open spec fn expansion_qtm(node: nat) -> Seq<nat> {
    let start = Coords::of(node);
    let u1 = start.u();
    let u3 = u1.u().u();
    let u4 = u3.u();
    let rw1 = u4.rw();
    let rw3 = rw1.rw().rw();
    seq![u1.encode(), u3.encode(), rw1.encode(), rw3.encode()]
}

/// The neighbours of `node` under U, R and r in the half turn metric: each
/// by one, two and three quarters, with a fourth quarter before the next
/// move is turned.
pub open spec fn expansion_u_r_rw_htm(node: nat) -> Seq<nat> {
    let start = Coords::of(node);
    let u1 = start.u();
    let u2 = u1.u();
    let u3 = u2.u();
    let u4 = u3.u();
    let r1 = u4.r();
    let r2 = r1.r();
    let r3 = r2.r();
    let r4 = r3.r();
    let rw1 = r4.rw();
    let rw2 = rw1.rw();
    let rw3 = rw2.rw();
    seq![
        u1.encode(),
        u2.encode(),
        u3.encode(),
        r1.encode(),
        r2.encode(),
        r3.encode(),
        rw1.encode(),
        rw2.encode(),
        rw3.encode(),
    ]
}

/// Writes the neighbours of `node` under U and r in the half turn metric
/// to `expanded_nodes`.
pub fn expand_htm(cube: &mut CoordCube<'_>, node: u64, expanded_nodes: &mut [u64; 6])
    requires
        old(cube).transposition_tables.wf(),
        node < STATE_SIZE,
    ensures
        final(cube).wf(),
        final(cube).transposition_tables == old(cube).transposition_tables,
        forall|i: int| 0 <= i < 6 ==> final(expanded_nodes)@[i] == expansion_htm(node as nat)[i],
{
    cube.decode(node);
    cube.u();
    expanded_nodes[0] = cube.encode();
    cube.u();
    expanded_nodes[1] = cube.encode();
    cube.u();
    expanded_nodes[2] = cube.encode();
    cube.u();
    cube.rw();
    expanded_nodes[3] = cube.encode();
    cube.rw();
    expanded_nodes[4] = cube.encode();
    cube.rw();
    expanded_nodes[5] = cube.encode();
}

/// Writes the neighbours of `node` under U and r in the quarter turn
/// metric to `expanded_nodes`.
pub fn expand_qtm(cube: &mut CoordCube<'_>, node: u64, expanded_nodes: &mut [u64; 4])
    requires
        old(cube).transposition_tables.wf(),
        node < STATE_SIZE,
    ensures
        final(cube).wf(),
        final(cube).transposition_tables == old(cube).transposition_tables,
        forall|i: int| 0 <= i < 4 ==> final(expanded_nodes)@[i] == expansion_qtm(node as nat)[i],
{
    cube.decode(node);
    cube.u();
    expanded_nodes[0] = cube.encode();
    cube.u();
    cube.u();
    expanded_nodes[1] = cube.encode();
    cube.u();
    cube.rw();
    expanded_nodes[2] = cube.encode();
    cube.rw();
    cube.rw();
    expanded_nodes[3] = cube.encode();
}

/// Writes the neighbours of `node` under U, R and r in the half turn
/// metric to `expanded_nodes`.
pub fn expand_u_r_rw_htm(cube: &mut CoordCube<'_>, node: u64, expanded_nodes: &mut [u64; 9])
    requires
        old(cube).transposition_tables.wf(),
        node < STATE_SIZE,
    ensures
        final(cube).wf(),
        final(cube).transposition_tables == old(cube).transposition_tables,
        forall|i: int|
            0 <= i < 9 ==> final(expanded_nodes)@[i] == expansion_u_r_rw_htm(node as nat)[i],
{
    cube.decode(node);
    cube.u();
    expanded_nodes[0] = cube.encode();
    cube.u();
    expanded_nodes[1] = cube.encode();
    cube.u();
    expanded_nodes[2] = cube.encode();
    cube.u();
    cube.r();
    expanded_nodes[3] = cube.encode();
    cube.r();
    expanded_nodes[4] = cube.encode();
    cube.r();
    expanded_nodes[5] = cube.encode();
    cube.r();
    cube.rw();
    expanded_nodes[6] = cube.encode();
    cube.rw();
    expanded_nodes[7] = cube.encode();
    cube.rw();
    expanded_nodes[8] = cube.encode();
}

} // verus!
