//! What a breadth-first search over the states needs: the neighbours of a
//! state in each metric, and the search's settings.

use vstd::prelude::*;
use crate::megaminx_u_r::coord_minx::{CoordMinx, Coords};
use crate::megaminx_u_r::minx::{
    lemma_encode_of_decode, lemma_sizes, lemma_turn_order, lemma_turns_keep_wf, MinxState,
    STATE_SIZE,
};
use crate::megaminx_u_r::transposition_tables::lemma_tables_follow;
use crate::settings::{
    chunk_files_from, chunk_root_seven_over_four, reports_from, seven_over_four, update_files_from,
    ChunkFilesBehavior, UpdateFilesBehavior,
};

verus! {

pub const EXPANSION_NODES_HTM: usize = 8;

pub const EXPANSION_NODES_QTM: usize = 4;

pub const CALLBACK_BOUND_HTM: usize = 25;

pub const CALLBACK_BOUND_QTM: usize = 33;

pub const PROVIDER_BOUND_HTM: usize = 16;

pub const PROVIDER_BOUND_QTM: usize = 24;

/// How moves are counted: any turn of a face as one (`Htm`), or fifths of
/// a turn in either direction (`Qtm`).
#[derive(Debug, Clone, Copy, PartialEq, Eq)]
pub enum Metric {
    Htm,
    Qtm,
}

/// The depth from which newly found states are reported.
pub fn callback_bound(metric: Metric) -> (bound: usize)
    ensures
        bound == match metric {
            Metric::Htm => CALLBACK_BOUND_HTM,
            Metric::Qtm => CALLBACK_BOUND_QTM,
        },
{
    match metric {
        Metric::Htm => CALLBACK_BOUND_HTM,
        Metric::Qtm => CALLBACK_BOUND_QTM,
    }
}

/// The depth from which the files of a depth are kept.
pub fn provider_bound(metric: Metric) -> (bound: usize)
    ensures
        bound == match metric {
            Metric::Htm => PROVIDER_BOUND_HTM,
            Metric::Qtm => PROVIDER_BOUND_QTM,
        },
{
    match metric {
        Metric::Htm => PROVIDER_BOUND_HTM,
        Metric::Qtm => PROVIDER_BOUND_QTM,
    }
}

/// Whether a state first seen at `depth` is reported.
pub fn new_state_is_reported(depth: usize, bound: usize) -> (report: bool)
    ensures
        report == (depth >= bound),
{
    reports_from(depth, bound)
}

/// Four drives take seven chunks in turn.
pub fn chunk_root_idx(chunk_idx: usize) -> (root: usize)
    ensures
        root == seven_over_four(chunk_idx as nat),
{
    chunk_root_seven_over_four(chunk_idx)
}

/// What becomes of the update files of a depth.
pub fn update_files_behavior(depth: usize, bound: usize) -> (behavior: UpdateFilesBehavior)
    ensures
        behavior == if depth >= bound {
            UpdateFilesBehavior::MergeAndKeep
        } else {
            UpdateFilesBehavior::DontMerge
        },
{
    update_files_from(depth, bound)
}

/// What becomes of the chunk files of a depth.
pub fn chunk_files_behavior(depth: usize, bound: usize) -> (behavior: ChunkFilesBehavior)
    ensures
        behavior == if depth >= bound {
            ChunkFilesBehavior::Keep
        } else {
            ChunkFilesBehavior::Delete
        },
{
    chunk_files_from(depth, bound)
}

/// The neighbours of `node` in the half turn metric: the state after U by
/// one, two, three and four fifths, then after R likewise.
#[verifier::opaque]
pub open spec fn expansion_htm(node: nat) -> Seq<nat> {
    let s = MinxState::decode(node);
    seq![
        s.u().encode(),
        s.u().u().encode(),
        s.u().u().u().encode(),
        s.u().u().u().u().encode(),
        s.r().encode(),
        s.r().r().encode(),
        s.r().r().r().encode(),
        s.r().r().r().r().encode(),
    ]
}

/// The neighbours of `node` in the quarter turn metric: the state after U
/// by one fifth and by four, then after R likewise.
#[verifier::opaque]
pub open spec fn expansion_qtm(node: nat) -> Seq<nat> {
    let s = MinxState::decode(node);
    seq![
        s.u().encode(),
        s.u().u().u().u().encode(),
        s.r().encode(),
        s.r().r().r().r().encode(),
    ]
}

/// Well-formed and even.
#[verifier::opaque]
pub open spec fn reachable_kind(s: MinxState) -> bool {
    s.wf() && s.is_even()
}

/// The states that the expansions pass through are well-formed and even,
/// so the tables follow the puzzle through all of them.
proof fn lemma_path(s: MinxState)
    requires
        reachable_kind(s),
    ensures
        Coords::of_state(s).in_range(),
        Coords::of_state(s).u() == Coords::of_state(s.u()),
        Coords::of_state(s).u2p() == Coords::of_state(s.u().u().u()),
        Coords::of_state(s).r() == Coords::of_state(s.r()),
        Coords::of_state(s).r2p() == Coords::of_state(s.r().r().r()),
        Coords::of_state(s).ur() == Coords::of_state(s.u().r()),
        Coords::of_state(s).encode() == s.encode(),
        reachable_kind(s.u()),
        reachable_kind(s.r()),
        s.u().u().u().u().u() == s,
        s.r().r().r().r().r() == s,
{
    reveal(reachable_kind);
    lemma_tables_follow(s);
    lemma_turns_keep_wf(s);
    lemma_turn_order(s);
}

/// The table lookups of the expansion in the half turn metric lead
/// through the neighbours: the fifth U brings the puzzle back before R is
/// turned.
pub proof fn lemma_expansion_htm(node: nat)
    requires
        node < STATE_SIZE,
    ensures
        ({
            let c0 = Coords::of(node);
            let c1 = c0.u();
            let c2 = c1.u();
            let c3 = c2.u();
            let c4 = c3.u();
            let c5 = c4.ur();
            let c6 = c5.r();
            let c7 = c6.r();
            let c8 = c7.r();
            let nodes = expansion_htm(node);
            &&& nodes.len() == 8
            &&& c1.in_range() && c1.encode() == nodes[0]
            &&& c2.in_range() && c2.encode() == nodes[1]
            &&& c3.in_range() && c3.encode() == nodes[2]
            &&& c4.in_range() && c4.encode() == nodes[3]
            &&& c5.in_range() && c5.encode() == nodes[4]
            &&& c6.in_range() && c6.encode() == nodes[5]
            &&& c7.in_range() && c7.encode() == nodes[6]
            &&& c8.in_range() && c8.encode() == nodes[7]
        }),
{
    reveal(expansion_htm);
    let s = MinxState::decode(node);
    lemma_start(node);
    lemma_path(s);
    lemma_path(s.u());
    lemma_path(s.u().u());
    lemma_path(s.u().u().u());
    lemma_path(s.u().u().u().u());
    lemma_path(s.r());
    lemma_path(s.r().r());
    lemma_path(s.r().r().r());
    lemma_path(s.r().r().r().r());
}

/// The state with a given number is well-formed and even, and its
/// coordinates are the two parts of the number.
proof fn lemma_start(node: nat)
    requires
        node < STATE_SIZE,
    ensures
        reachable_kind(MinxState::decode(node)),
        Coords::of(node) == Coords::of_state(MinxState::decode(node)),
{
    reveal(reachable_kind);
    lemma_sizes();
    lemma_encode_of_decode(node);
    lemma_tables_follow(MinxState::decode(node));
}

/// The table lookups of the expansion in the quarter turn metric lead
/// through the neighbours.
pub proof fn lemma_expansion_qtm(node: nat)
    requires
        node < STATE_SIZE,
    ensures
        ({
            let c0 = Coords::of(node);
            let c1 = c0.u();
            let c2 = c1.u2p();
            let c3 = c2.ur();
            let c4 = c3.r2p();
            let nodes = expansion_qtm(node);
            &&& nodes.len() == 4
            &&& c1.in_range() && c1.encode() == nodes[0]
            &&& c2.in_range() && c2.encode() == nodes[1]
            &&& c3.in_range() && c3.encode() == nodes[2]
            &&& c4.in_range() && c4.encode() == nodes[3]
        }),
{
    reveal(expansion_qtm);
    let s = MinxState::decode(node);
    lemma_start(node);
    lemma_path(s);
    lemma_path(s.u());
    lemma_path(s.u().u());
    lemma_path(s.u().u().u());
    lemma_path(s.u().u().u().u());
    lemma_path(s.r());
    lemma_path(s.r().r());
    lemma_path(s.r().r().r());
    lemma_path(s.r().r().r().r());
}

/// Writes the neighbours of `node` in the half turn metric to
/// `expanded_nodes`.
pub fn expand_htm(minx: &mut CoordMinx<'_>, node: u64, expanded_nodes: &mut [u64; 8])
    requires
        old(minx).transposition_tables.wf(),
        node < STATE_SIZE,
    ensures
        final(minx).wf(),
        final(minx).transposition_tables == old(minx).transposition_tables,
        forall|i: int| 0 <= i < 8 ==> final(expanded_nodes)@[i] == expansion_htm(node as nat)[i],
{
    proof {
        lemma_expansion_htm(node as nat);
    }
    minx.decode(node);
    minx.u();
    expanded_nodes[0] = minx.encode();
    minx.u();
    expanded_nodes[1] = minx.encode();
    minx.u();
    expanded_nodes[2] = minx.encode();
    minx.u();
    expanded_nodes[3] = minx.encode();
    minx.ur();
    expanded_nodes[4] = minx.encode();
    minx.r();
    expanded_nodes[5] = minx.encode();
    minx.r();
    expanded_nodes[6] = minx.encode();
    minx.r();
    expanded_nodes[7] = minx.encode();
}

/// Writes the neighbours of `node` in the quarter turn metric to
/// `expanded_nodes`.
pub fn expand_qtm(minx: &mut CoordMinx<'_>, node: u64, expanded_nodes: &mut [u64; 4])
    requires
        old(minx).transposition_tables.wf(),
        node < STATE_SIZE,
    ensures
        final(minx).wf(),
        final(minx).transposition_tables == old(minx).transposition_tables,
        forall|i: int| 0 <= i < 4 ==> final(expanded_nodes)@[i] == expansion_qtm(node as nat)[i],
{
    proof {
        lemma_expansion_qtm(node as nat);
    }
    minx.decode(node);
    minx.u();
    expanded_nodes[0] = minx.encode();
    minx.u2p();
    expanded_nodes[1] = minx.encode();
    minx.ur();
    expanded_nodes[2] = minx.encode();
    minx.r2p();
    expanded_nodes[3] = minx.encode();
}

} // verus!
