//! What a breadth-first search over the states needs: the neighbours of a
//! state, and the search's settings.

use vstd::prelude::*;
use crate::kilominx::minx::{lemma_turn_order, turned, Kilominx, Turn, STATE_SIZE};
use crate::parity::{even_rank, even_unrank};
use crate::permutation::is_permutation;
use crate::settings::{
    chunk_files_from, chunk_root_round_robin, reports_from, update_files_from, ChunkFilesBehavior,
    UpdateFilesBehavior,
};

verus! {

pub const EXPANSION_NODES_HTM: usize = 24;

/// The depth from which newly found states are reported.
pub const CALLBACK_BOUND_HTM: usize = 12;

/// The depth from which the files of a depth are kept.
pub const PROVIDER_BOUND_HTM: usize = 13;

/// How moves are counted: any turn of a face as one (`Htm`), or fifths of
/// a turn (`Qtm`).
#[derive(Debug, Clone, Copy, PartialEq, Eq)]
pub enum Metric {
    Htm,
    Qtm,
}

/// Whether a state first seen at `depth` is reported.
pub fn new_state_is_reported(depth: usize, bound: usize) -> (report: bool)
    ensures
        report == (depth >= bound),
{
    reports_from(depth, bound)
}

/// The three drives take the chunks in turn.
pub fn chunk_root_idx(chunk_idx: usize) -> (root: usize)
    ensures
        root == chunk_idx % 3,
{
    chunk_root_round_robin(chunk_idx, 3)
}

/// What becomes of the update files of a depth.
pub fn update_files_behavior(depth: usize, bound: usize) -> (behavior: UpdateFilesBehavior)
    ensures
        behavior == if depth >= bound {
            UpdateFilesBehavior::MergeAndKeep
        } else {
            UpdateFilesBehavior::DontMerge
        },
{
    update_files_from(depth, bound)
}

/// What becomes of the chunk files of a depth.
pub fn chunk_files_behavior(depth: usize, bound: usize) -> (behavior: ChunkFilesBehavior)
    ensures
        behavior == if depth >= bound {
            ChunkFilesBehavior::Keep
        } else {
            ChunkFilesBehavior::Delete
        },
{
    chunk_files_from(depth, bound)
}

/// The six turns in the order in which a state is expanded.
pub open spec fn turn_at(i: int) -> Turn {
    if i == 0 {
        Turn::U
    } else if i == 1 {
        Turn::L
    } else if i == 2 {
        Turn::F
    } else if i == 3 {
        Turn::R
    } else if i == 4 {
        Turn::BR
    } else {
        Turn::BL
    }
}

/// The corners after `n` times the same turn.
pub open spec fn turned_times(corners: Seq<u8>, turn: Turn, n: nat) -> Seq<u8>
    decreases n,
{
    if n == 0 {
        corners
    } else {
        turned(turned_times(corners, turn, (n - 1) as nat), turn)
    }
}

/// The neighbours of `node` in the half turn metric: for each of the six
/// turns in order, the state after one, two, three and four times the
/// turn.
pub open spec fn expansion_htm(node: nat) -> Seq<nat> {
    Seq::new(
        24,
        |i: int| even_rank(turned_times(even_unrank(node, 15), turn_at(i / 4), (i % 4 + 1) as nat)),
    )
}

/// The turn with a given place in the order of expansion.
pub fn turn_number(i: usize) -> (turn: Turn)
    requires
        i < 6,
    ensures
        turn == turn_at(i as int),
{
    if i == 0 {
        Turn::U
    } else if i == 1 {
        Turn::L
    } else if i == 2 {
        Turn::F
    } else if i == 3 {
        Turn::R
    } else if i == 4 {
        Turn::BR
    } else {
        Turn::BL
    }
}

proof fn lemma_turned_times(corners: Seq<u8>, turn: Turn, n: nat)
    requires
        corners.len() == 15,
        is_permutation(corners),
    ensures
        is_permutation(turned_times(corners, turn, n)),
        turned_times(corners, turn, n).len() == 15,
        turned_times(corners, turn, n + 5) == turned_times(corners, turn, n),
    decreases n,
{
    reveal_with_fuel(turned_times, 6);
    if n == 0 {
        lemma_turn_order(corners, turn);
        lemma_turn_order(turned(corners, turn), turn);
        lemma_turn_order(turned(turned(corners, turn), turn), turn);
        lemma_turn_order(turned(turned(turned(corners, turn), turn), turn), turn);
    } else {
        lemma_turned_times(corners, turn, (n - 1) as nat);
        lemma_turn_order(turned_times(corners, turn, (n - 1) as nat), turn);
    }
}

/// Writes the neighbours of `node` in the half turn metric to
/// `expanded_nodes`.
pub fn expand_htm(minx: &mut Kilominx, node: u64, expanded_nodes: &mut [u64; 24])
    requires
        node < STATE_SIZE,
    ensures
        final(minx).corners@ == even_unrank(node as nat, 15),
        forall|i: int| 0 <= i < 24 ==> final(expanded_nodes)@[i] == expansion_htm(node as nat)[i],
{
    minx.decode(node);
    let ghost start = minx.corners@;
    let mut t: usize = 0;
    while t < 6
        invariant
            t <= 6,
            start == even_unrank(node as nat, 15),
            minx.corners@ == start,
            minx.wf(),
            forall|i: int|
                0 <= i < 4 * t ==> expanded_nodes@[i] == expansion_htm(node as nat)[i],
        decreases 6 - t,
    {
        let turn = turn_number(t);
        let mut k: usize = 0;
        while k < 4
            invariant
                k <= 4,
                t < 6,
                turn == turn_at(t as int),
                start == even_unrank(node as nat, 15),
                start.len() == 15,
                is_permutation(start),
                minx.corners@ == turned_times(start, turn, k as nat),
                minx.wf(),
                forall|i: int|
                    0 <= i < 4 * t + k ==> expanded_nodes@[i] == expansion_htm(node as nat)[i],
            decreases 4 - k,
        {
            proof {
                lemma_turned_times(start, turn, k as nat);
                lemma_turned_times(start, turn, (k + 1) as nat);
            }
            minx.turn(turn);
            expanded_nodes[4 * t + k] = minx.encode();
            k = k + 1;
        }
        proof {
            lemma_turned_times(start, turn, 0);
            lemma_turned_times(start, turn, 4);
        }
        minx.turn(turn);
        t = t + 1;
    }
}

} // verus!
