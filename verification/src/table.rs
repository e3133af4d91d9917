//! Transposition tables: for one coordinate and one generator, the
//! coordinate after the move at the index of the coordinate before it.

use vstd::prelude::*;

verus! {

/// `table` holds, for each coordinate below `size`, its image under `f`,
/// which is again a coordinate below `size`.
pub open spec fn tabulates(table: Seq<u32>, size: nat, f: spec_fn(nat) -> nat) -> bool {
    &&& table.len() == size
    &&& forall|i: int|
        0 <= i < size ==> (#[trigger] table[i]) as nat == f(i as nat) && (table[i] as nat) < size
}

/// `table` holds the first `n` entries of the table of `f` over the
/// coordinates below `size`.
pub open spec fn tabulates_upto(table: Seq<u32>, n: nat, size: nat, f: spec_fn(nat) -> nat) -> bool {
    &&& table.len() == n
    &&& forall|i: int|
        0 <= i < n ==> (#[trigger] table[i]) as nat == f(i as nat) && (table[i] as nat) < size
}

/// Builds the table of `step` over the coordinates `0..size`: entry `i` is
/// what `step` returns for `i`.
pub fn build_table<F: Fn(u32) -> u32>(size: u32, step: F) -> (table: Vec<u32>)
    requires
        forall|i: u32| i < size ==> call_requires(step, (i,)),
    ensures
        table@.len() == size,
        forall|i: int| 0 <= i < size ==> call_ensures(step, (i as u32,), #[trigger] table@[i]),
{
    let mut table: Vec<u32> = Vec::with_capacity(size as usize);
    let mut i: u32 = 0;
    while i < size
        invariant
            i <= size,
            table@.len() == i,
            forall|j: u32| j < size ==> call_requires(step, (j,)),
            forall|j: int| 0 <= j < i ==> call_ensures(step, (j as u32,), #[trigger] table@[j]),
        decreases size - i,
    {
        let next = step(i);
        table.push(next);
        i = i + 1;
    }
    table
}

/// Reads the table at a coordinate.
pub fn lookup(table: &Vec<u32>, coord: u32) -> (next: u32)
    requires
        coord < table@.len(),
    ensures
        next == table@[coord as int],
{
    table[coord as usize]
}

} // verus!
