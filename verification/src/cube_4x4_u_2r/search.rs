//! What a breadth-first search over the states needs: the neighbours of a
//! state in each metric, and the search's settings.

use vstd::prelude::*;
use crate::cube_4x4_u_2r::coord_cube::{CoordCube, Coords};
use crate::cube_4x4_u_2r::cube::{
    lemma_encode_of_decode, lemma_moves_keep_wf, lemma_quarter_turns, lemma_sizes, CubeState,
    STATE_SIZE,
};
use crate::cube_4x4_u_2r::transposition_tables::lemma_tables_follow;
use crate::settings::{
    chunk_root_round_robin, reports_above, ChunkFilesBehavior, UpdateFilesBehavior,
};

verus! {

pub const EXPANSION_NODES_HTM: usize = 6;

pub const EXPANSION_NODES_QTM: usize = 4;

pub const EXPANSION_NODES_UTM: usize = 2;

pub const CALLBACK_BOUND_HTM: usize = 26;

pub const CALLBACK_BOUND_QTM: usize = 33;

pub const CALLBACK_BOUND_UTM: usize = 47;

/// How moves are counted: any turn of a layer as one (`Htm`), quarter
/// turns in either direction (`Qtm`), or quarter turns in one direction
/// only (`Utm`).
#[derive(Debug, Clone, Copy, PartialEq, Eq)]
pub enum Metric {
    Htm,
    Qtm,
    Utm,
}

/// The depth above which newly found states are reported.
pub fn callback_bound(metric: Metric) -> (bound: usize)
    ensures
        bound == match metric {
            Metric::Htm => CALLBACK_BOUND_HTM,
            Metric::Qtm => CALLBACK_BOUND_QTM,
            Metric::Utm => CALLBACK_BOUND_UTM,
        },
{
    match metric {
        Metric::Htm => CALLBACK_BOUND_HTM,
        Metric::Qtm => CALLBACK_BOUND_QTM,
        Metric::Utm => CALLBACK_BOUND_UTM,
    }
}

/// Whether a state first seen at `depth` is reported.
pub fn new_state_is_reported(depth: usize, bound: usize) -> (report: bool)
    ensures
        report == (depth > bound),
{
    reports_above(depth, bound)
}

/// The four drives take the chunks in turn.
pub fn chunk_root_idx(chunk_idx: usize) -> (root: usize)
    ensures
        root == chunk_idx % 4,
{
    chunk_root_round_robin(chunk_idx, 4)
}

/// What becomes of the update files of a depth.
pub fn update_files_behavior(depth: usize) -> (behavior: UpdateFilesBehavior)
    ensures
        behavior == UpdateFilesBehavior::DontMerge,
{
    UpdateFilesBehavior::DontMerge
}

/// What becomes of the chunk files of a depth.
pub fn chunk_files_behavior(depth: usize) -> (behavior: ChunkFilesBehavior)
    ensures
        behavior == ChunkFilesBehavior::Delete,
{
    ChunkFilesBehavior::Delete
}

/// The neighbours of `node` in the half turn metric: the state after U by
/// one, two and three quarters, then after 2R likewise.
#[verifier::opaque]
pub open spec fn expansion_htm(node: nat) -> Seq<nat> {
    let s = CubeState::decode(node);
    seq![
        s.u().encode(),
        s.u().u().encode(),
        s.u().u().u().encode(),
        s.r().encode(),
        s.r().r().encode(),
        s.r().r().r().encode(),
    ]
}

/// The neighbours of `node` in the quarter turn metric: the state after U
/// by one quarter and by three, then after 2R likewise.
#[verifier::opaque]
pub open spec fn expansion_qtm(node: nat) -> Seq<nat> {
    let s = CubeState::decode(node);
    seq![s.u().encode(), s.u().u().u().encode(), s.r().encode(), s.r().r().r().encode()]
}

/// The neighbours of `node` where only one direction of turning counts:
/// the state after U by three quarters, and after 2R by three quarters.
#[verifier::opaque]
pub open spec fn expansion_utm(node: nat) -> Seq<nat> {
    let s = CubeState::decode(node);
    seq![s.u().u().u().encode(), s.r().r().r().encode()]
}

/// Well-formed.
#[verifier::opaque]
pub open spec fn valid(s: CubeState) -> bool {
    s.wf()
}

/// The tables follow the cube through the states that the expansions pass
/// through.
proof fn lemma_path(s: CubeState)
    requires
        valid(s),
    ensures
        Coords::of_state(s).in_range(),
        Coords::of_state(s).u() == Coords::of_state(s.u()),
        Coords::of_state(s).u2() == Coords::of_state(s.u().u()),
        Coords::of_state(s).up() == Coords::of_state(s.u().u().u()),
        Coords::of_state(s).ur() == Coords::of_state(s.u().r()),
        Coords::of_state(s).urp() == Coords::of_state(s.u().r().r().r()),
        Coords::of_state(s).r() == Coords::of_state(s.r()),
        Coords::of_state(s).r2() == Coords::of_state(s.r().r()),
        Coords::of_state(s).encode() == s.encode(),
        valid(s.u()),
        valid(s.r()),
        s.u().u().u().u() == s,
        s.r().r().r().r() == s,
{
    reveal(valid);
    lemma_tables_follow(s);
    lemma_moves_keep_wf(s);
    lemma_quarter_turns(s);
}

/// The state with a given number is well-formed, and its coordinates are
/// the two parts of the number.
proof fn lemma_start(node: nat)
    requires
        node < STATE_SIZE,
    ensures
        valid(CubeState::decode(node)),
        Coords::of(node) == Coords::of_state(CubeState::decode(node)),
{
    reveal(valid);
    lemma_sizes();
    lemma_encode_of_decode(node);
    lemma_tables_follow(CubeState::decode(node));
}

/// The table lookups of the three expansions lead through the neighbours:
/// the fourth quarter of U brings the cube back before 2R is turned.
pub proof fn lemma_expansions(node: nat)
    requires
        node < STATE_SIZE,
    ensures
        ({
            let c0 = Coords::of(node);
            let c1 = c0.u();
            let c2 = c1.u();
            let c3 = c2.u();
            let c4 = c3.ur();
            let c5 = c4.r();
            let c6 = c5.r();
            let nodes = expansion_htm(node);
            &&& nodes.len() == 6
            &&& c1.in_range() && c1.encode() == nodes[0]
            &&& c2.in_range() && c2.encode() == nodes[1]
            &&& c3.in_range() && c3.encode() == nodes[2]
            &&& c4.in_range() && c4.encode() == nodes[3]
            &&& c5.in_range() && c5.encode() == nodes[4]
            &&& c6.in_range() && c6.encode() == nodes[5]
        }),
        ({
            let c0 = Coords::of(node);
            let c1 = c0.u();
            let c2 = c1.u2();
            let c3 = c2.ur();
            let c4 = c3.r2();
            let nodes = expansion_qtm(node);
            &&& nodes.len() == 4
            &&& c1.in_range() && c1.encode() == nodes[0]
            &&& c2.in_range() && c2.encode() == nodes[1]
            &&& c3.in_range() && c3.encode() == nodes[2]
            &&& c4.in_range() && c4.encode() == nodes[3]
        }),
        ({
            let c0 = Coords::of(node);
            let c1 = c0.up();
            let c2 = c1.urp();
            let nodes = expansion_utm(node);
            &&& nodes.len() == 2
            &&& c1.in_range() && c1.encode() == nodes[0]
            &&& c2.in_range() && c2.encode() == nodes[1]
        }),
{
    reveal(expansion_htm);
    reveal(expansion_qtm);
    reveal(expansion_utm);
    let s = CubeState::decode(node);
    lemma_start(node);
    lemma_path(s);
    lemma_path(s.u());
    lemma_path(s.u().u());
    lemma_path(s.u().u().u());
    lemma_path(s.r());
    lemma_path(s.r().r());
    lemma_path(s.r().r().r());
}

/// Writes the neighbours of `node` in the half turn metric to
/// `expanded_nodes`.
pub fn expand_htm(cube: &mut CoordCube<'_>, node: u64, expanded_nodes: &mut [u64; 6])
    requires
        old(cube).transposition_tables.wf(),
        node < STATE_SIZE,
    ensures
        final(cube).wf(),
        final(cube).transposition_tables == old(cube).transposition_tables,
        forall|i: int| 0 <= i < 6 ==> final(expanded_nodes)@[i] == expansion_htm(node as nat)[i],
{
    proof {
        lemma_expansions(node as nat);
    }
    cube.decode(node);
    cube.u();
    expanded_nodes[0] = cube.encode();
    cube.u();
    expanded_nodes[1] = cube.encode();
    cube.u();
    expanded_nodes[2] = cube.encode();
    cube.ur();
    expanded_nodes[3] = cube.encode();
    cube.r();
    expanded_nodes[4] = cube.encode();
    cube.r();
    expanded_nodes[5] = cube.encode();
}

/// Writes the neighbours of `node` in the quarter turn metric to
/// `expanded_nodes`.
pub fn expand_qtm(cube: &mut CoordCube<'_>, node: u64, expanded_nodes: &mut [u64; 4])
    requires
        old(cube).transposition_tables.wf(),
        node < STATE_SIZE,
    ensures
        final(cube).wf(),
        final(cube).transposition_tables == old(cube).transposition_tables,
        forall|i: int| 0 <= i < 4 ==> final(expanded_nodes)@[i] == expansion_qtm(node as nat)[i],
{
    proof {
        lemma_expansions(node as nat);
    }
    cube.decode(node);
    cube.u();
    expanded_nodes[0] = cube.encode();
    cube.u2();
    expanded_nodes[1] = cube.encode();
    cube.ur();
    expanded_nodes[2] = cube.encode();
    cube.r2();
    expanded_nodes[3] = cube.encode();
}

/// Writes the neighbours of `node`, where only one direction of turning
/// counts, to `expanded_nodes`.
pub fn expand_utm(cube: &mut CoordCube<'_>, node: u64, expanded_nodes: &mut [u64; 2])
    requires
        old(cube).transposition_tables.wf(),
        node < STATE_SIZE,
    ensures
        final(cube).wf(),
        final(cube).transposition_tables == old(cube).transposition_tables,
        forall|i: int| 0 <= i < 2 ==> final(expanded_nodes)@[i] == expansion_utm(node as nat)[i],
{
    proof {
        lemma_expansions(node as nat);
    }
    cube.decode(node);
    cube.up();
    expanded_nodes[0] = cube.encode();
    cube.urp();
    expanded_nodes[1] = cube.encode();
}

} // verus!
