//! The arrangements of the six corners.
//!
//! The turns move the six corners in a group of 120 permutations in which
//! the corners in the first three places tell where the other three are.
//! So an arrangement is numbered by its rank among all permutations
//! without the three lowest digits, and the table below gives, for each
//! number, the arrangement.

use vstd::prelude::*;
use crate::counting::{count_below, indicator, lemma_count_below_drop_first};
use crate::cycle::cycled4;
use crate::factorial::lemma_fact_values;
use crate::permutation::{
    is_permutation, lehmer_rank, lemma_permutation_count_below, lemma_rank_bound,
};

verus! {

/// The number of arrangements of the corners.
pub const CP_SIZE: u32 = 120;

/// The arrangement of the corners with number `coord`.
pub open spec fn corner_arrangement(coord: nat) -> Seq<u8> {
    if coord == 0 {
        seq![0u8, 1, 2, 3, 4, 5]
    } else if coord == 1 {
        seq![0u8, 1, 3, 4, 5, 2]
    } else if coord == 2 {
        seq![0u8, 1, 4, 5, 2, 3]
    } else if coord == 3 {
        seq![0u8, 1, 5, 2, 3, 4]
    } else if coord == 4 {
        seq![0u8, 2, 1, 4, 3, 5]
    } else if coord == 5 {
        seq![0u8, 2, 3, 5, 1, 4]
    } else if coord == 6 {
        seq![0u8, 2, 4, 3, 5, 1]
    } else if coord == 7 {
        seq![0u8, 2, 5, 1, 4, 3]
    } else if coord == 8 {
        seq![0u8, 3, 1, 5, 4, 2]
    } else if coord == 9 {
        seq![0u8, 3, 2, 1, 5, 4]
    } else if coord == 10 {
        seq![0u8, 3, 4, 2, 1, 5]
    } else if coord == 11 {
        seq![0u8, 3, 5, 4, 2, 1]
    } else if coord == 12 {
        seq![0u8, 4, 1, 2, 5, 3]
    } else if coord == 13 {
        seq![0u8, 4, 2, 5, 3, 1]
    } else if coord == 14 {
        seq![0u8, 4, 3, 1, 2, 5]
    } else if coord == 15 {
        seq![0u8, 4, 5, 3, 1, 2]
    } else if coord == 16 {
        seq![0u8, 5, 1, 3, 2, 4]
    } else if coord == 17 {
        seq![0u8, 5, 2, 4, 1, 3]
    } else if coord == 18 {
        seq![0u8, 5, 3, 2, 4, 1]
    } else if coord == 19 {
        seq![0u8, 5, 4, 1, 3, 2]
    } else if coord == 20 {
        seq![1u8, 0, 2, 5, 4, 3]
    } else if coord == 21 {
        seq![1u8, 0, 3, 2, 5, 4]
    } else if coord == 22 {
        seq![1u8, 0, 4, 3, 2, 5]
    } else if coord == 23 {
        seq![1u8, 0, 5, 4, 3, 2]
    } else if coord == 24 {
        seq![1u8, 2, 0, 4, 5, 3]
    } else if coord == 25 {
        seq![1u8, 2, 3, 0, 4, 5]
    } else if coord == 26 {
        seq![1u8, 2, 4, 5, 3, 0]
    } else if coord == 27 {
        seq![1u8, 2, 5, 3, 0, 4]
    } else if coord == 28 {
        seq![1u8, 3, 0, 5, 2, 4]
    } else if coord == 29 {
        seq![1u8, 3, 2, 4, 0, 5]
    } else if coord == 30 {
        seq![1u8, 3, 4, 0, 5, 2]
    } else if coord == 31 {
        seq![1u8, 3, 5, 2, 4, 0]
    } else if coord == 32 {
        seq![1u8, 4, 0, 2, 3, 5]
    } else if coord == 33 {
        seq![1u8, 4, 2, 3, 5, 0]
    } else if coord == 34 {
        seq![1u8, 4, 3, 5, 0, 2]
    } else if coord == 35 {
        seq![1u8, 4, 5, 0, 2, 3]
    } else if coord == 36 {
        seq![1u8, 5, 0, 3, 4, 2]
    } else if coord == 37 {
        seq![1u8, 5, 2, 0, 3, 4]
    } else if coord == 38 {
        seq![1u8, 5, 3, 4, 2, 0]
    } else if coord == 39 {
        seq![1u8, 5, 4, 2, 0, 3]
    } else if coord == 40 {
        seq![2u8, 0, 1, 5, 3, 4]
    } else if coord == 41 {
        seq![2u8, 0, 3, 4, 1, 5]
    } else if coord == 42 {
        seq![2u8, 0, 4, 1, 5, 3]
    } else if coord == 43 {
        seq![2u8, 0, 5, 3, 4, 1]
    } else if coord == 44 {
        seq![2u8, 1, 0, 3, 5, 4]
    } else if coord == 45 {
        seq![2u8, 1, 3, 5, 4, 0]
    } else if coord == 46 {
        seq![2u8, 1, 4, 0, 3, 5]
    } else if coord == 47 {
        seq![2u8, 1, 5, 4, 0, 3]
    } else if coord == 48 {
        seq![2u8, 3, 0, 1, 4, 5]
    } else if coord == 49 {
        seq![2u8, 3, 1, 4, 5, 0]
    } else if coord == 50 {
        seq![2u8, 3, 4, 5, 0, 1]
    } else if coord == 51 {
        seq![2u8, 3, 5, 0, 1, 4]
    } else if coord == 52 {
        seq![2u8, 4, 0, 5, 1, 3]
    } else if coord == 53 {
        seq![2u8, 4, 1, 3, 0, 5]
    } else if coord == 54 {
        seq![2u8, 4, 3, 0, 5, 1]
    } else if coord == 55 {
        seq![2u8, 4, 5, 1, 3, 0]
    } else if coord == 56 {
        seq![2u8, 5, 0, 4, 3, 1]
    } else if coord == 57 {
        seq![2u8, 5, 1, 0, 4, 3]
    } else if coord == 58 {
        seq![2u8, 5, 3, 1, 0, 4]
    } else if coord == 59 {
        seq![2u8, 5, 4, 3, 1, 0]
    } else if coord == 60 {
        seq![3u8, 0, 1, 2, 4, 5]
    } else if coord == 61 {
        seq![3u8, 0, 2, 4, 5, 1]
    } else if coord == 62 {
        seq![3u8, 0, 4, 5, 1, 2]
    } else if coord == 63 {
        seq![3u8, 0, 5, 1, 2, 4]
    } else if coord == 64 {
        seq![3u8, 1, 0, 4, 2, 5]
    } else if coord == 65 {
        seq![3u8, 1, 2, 5, 0, 4]
    } else if coord == 66 {
        seq![3u8, 1, 4, 2, 5, 0]
    } else if coord == 67 {
        seq![3u8, 1, 5, 0, 4, 2]
    } else if coord == 68 {
        seq![3u8, 2, 0, 5, 4, 1]
    } else if coord == 69 {
        seq![3u8, 2, 1, 0, 5, 4]
    } else if coord == 70 {
        seq![3u8, 2, 4, 1, 0, 5]
    } else if coord == 71 {
        seq![3u8, 2, 5, 4, 1, 0]
    } else if coord == 72 {
        seq![3u8, 4, 0, 1, 5, 2]
    } else if coord == 73 {
        seq![3u8, 4, 1, 5, 2, 0]
    } else if coord == 74 {
        seq![3u8, 4, 2, 0, 1, 5]
    } else if coord == 75 {
        seq![3u8, 4, 5, 2, 0, 1]
    } else if coord == 76 {
        seq![3u8, 5, 0, 2, 1, 4]
    } else if coord == 77 {
        seq![3u8, 5, 1, 4, 0, 2]
    } else if coord == 78 {
        seq![3u8, 5, 2, 1, 4, 0]
    } else if coord == 79 {
        seq![3u8, 5, 4, 0, 2, 1]
    } else if coord == 80 {
        seq![4u8, 0, 1, 3, 5, 2]
    } else if coord == 81 {
        seq![4u8, 0, 2, 1, 3, 5]
    } else if coord == 82 {
        seq![4u8, 0, 3, 5, 2, 1]
    } else if coord == 83 {
        seq![4u8, 0, 5, 2, 1, 3]
    } else if coord == 84 {
        seq![4u8, 1, 0, 5, 3, 2]
    } else if coord == 85 {
        seq![4u8, 1, 2, 0, 5, 3]
    } else if coord == 86 {
        seq![4u8, 1, 3, 2, 0, 5]
    } else if coord == 87 {
        seq![4u8, 1, 5, 3, 2, 0]
    } else if coord == 88 {
        seq![4u8, 2, 0, 3, 1, 5]
    } else if coord == 89 {
        seq![4u8, 2, 1, 5, 0, 3]
    } else if coord == 90 {
        seq![4u8, 2, 3, 1, 5, 0]
    } else if coord == 91 {
        seq![4u8, 2, 5, 0, 3, 1]
    } else if coord == 92 {
        seq![4u8, 3, 0, 2, 5, 1]
    } else if coord == 93 {
        seq![4u8, 3, 1, 0, 2, 5]
    } else if coord == 94 {
        seq![4u8, 3, 2, 5, 1, 0]
    } else if coord == 95 {
        seq![4u8, 3, 5, 1, 0, 2]
    } else if coord == 96 {
        seq![4u8, 5, 0, 1, 2, 3]
    } else if coord == 97 {
        seq![4u8, 5, 1, 2, 3, 0]
    } else if coord == 98 {
        seq![4u8, 5, 2, 3, 0, 1]
    } else if coord == 99 {
        seq![4u8, 5, 3, 0, 1, 2]
    } else if coord == 100 {
        seq![5u8, 0, 1, 4, 2, 3]
    } else if coord == 101 {
        seq![5u8, 0, 2, 3, 1, 4]
    } else if coord == 102 {
        seq![5u8, 0, 3, 1, 4, 2]
    } else if coord == 103 {
        seq![5u8, 0, 4, 2, 3, 1]
    } else if coord == 104 {
        seq![5u8, 1, 0, 2, 4, 3]
    } else if coord == 105 {
        seq![5u8, 1, 2, 4, 3, 0]
    } else if coord == 106 {
        seq![5u8, 1, 3, 0, 2, 4]
    } else if coord == 107 {
        seq![5u8, 1, 4, 3, 0, 2]
    } else if coord == 108 {
        seq![5u8, 2, 0, 1, 3, 4]
    } else if coord == 109 {
        seq![5u8, 2, 1, 3, 4, 0]
    } else if coord == 110 {
        seq![5u8, 2, 3, 4, 0, 1]
    } else if coord == 111 {
        seq![5u8, 2, 4, 0, 1, 3]
    } else if coord == 112 {
        seq![5u8, 3, 0, 4, 1, 2]
    } else if coord == 113 {
        seq![5u8, 3, 1, 2, 0, 4]
    } else if coord == 114 {
        seq![5u8, 3, 2, 0, 4, 1]
    } else if coord == 115 {
        seq![5u8, 3, 4, 1, 2, 0]
    } else if coord == 116 {
        seq![5u8, 4, 0, 3, 2, 1]
    } else if coord == 117 {
        seq![5u8, 4, 1, 0, 3, 2]
    } else if coord == 118 {
        seq![5u8, 4, 2, 1, 0, 3]
    } else if coord == 119 {
        seq![5u8, 4, 3, 2, 1, 0]
    } else {
        seq![0u8, 1, 2, 3, 4, 5]
    }
}

/// The arrangement of the corners with number `coord`.
pub fn corner_arrangement_at(coord: u32) -> (cp: [u8; 6])
    requires
        coord < CP_SIZE,
    ensures
        cp@ == corner_arrangement(coord as nat),
{
    let table: [[u8; 6]; 120] = [
        [0, 1, 2, 3, 4, 5],
        [0, 1, 3, 4, 5, 2],
        [0, 1, 4, 5, 2, 3],
        [0, 1, 5, 2, 3, 4],
        [0, 2, 1, 4, 3, 5],
        [0, 2, 3, 5, 1, 4],
        [0, 2, 4, 3, 5, 1],
        [0, 2, 5, 1, 4, 3],
        [0, 3, 1, 5, 4, 2],
        [0, 3, 2, 1, 5, 4],
        [0, 3, 4, 2, 1, 5],
        [0, 3, 5, 4, 2, 1],
        [0, 4, 1, 2, 5, 3],
        [0, 4, 2, 5, 3, 1],
        [0, 4, 3, 1, 2, 5],
        [0, 4, 5, 3, 1, 2],
        [0, 5, 1, 3, 2, 4],
        [0, 5, 2, 4, 1, 3],
        [0, 5, 3, 2, 4, 1],
        [0, 5, 4, 1, 3, 2],
        [1, 0, 2, 5, 4, 3],
        [1, 0, 3, 2, 5, 4],
        [1, 0, 4, 3, 2, 5],
        [1, 0, 5, 4, 3, 2],
        [1, 2, 0, 4, 5, 3],
        [1, 2, 3, 0, 4, 5],
        [1, 2, 4, 5, 3, 0],
        [1, 2, 5, 3, 0, 4],
        [1, 3, 0, 5, 2, 4],
        [1, 3, 2, 4, 0, 5],
        [1, 3, 4, 0, 5, 2],
        [1, 3, 5, 2, 4, 0],
        [1, 4, 0, 2, 3, 5],
        [1, 4, 2, 3, 5, 0],
        [1, 4, 3, 5, 0, 2],
        [1, 4, 5, 0, 2, 3],
        [1, 5, 0, 3, 4, 2],
        [1, 5, 2, 0, 3, 4],
        [1, 5, 3, 4, 2, 0],
        [1, 5, 4, 2, 0, 3],
        [2, 0, 1, 5, 3, 4],
        [2, 0, 3, 4, 1, 5],
        [2, 0, 4, 1, 5, 3],
        [2, 0, 5, 3, 4, 1],
        [2, 1, 0, 3, 5, 4],
        [2, 1, 3, 5, 4, 0],
        [2, 1, 4, 0, 3, 5],
        [2, 1, 5, 4, 0, 3],
        [2, 3, 0, 1, 4, 5],
        [2, 3, 1, 4, 5, 0],
        [2, 3, 4, 5, 0, 1],
        [2, 3, 5, 0, 1, 4],
        [2, 4, 0, 5, 1, 3],
        [2, 4, 1, 3, 0, 5],
        [2, 4, 3, 0, 5, 1],
        [2, 4, 5, 1, 3, 0],
        [2, 5, 0, 4, 3, 1],
        [2, 5, 1, 0, 4, 3],
        [2, 5, 3, 1, 0, 4],
        [2, 5, 4, 3, 1, 0],
        [3, 0, 1, 2, 4, 5],
        [3, 0, 2, 4, 5, 1],
        [3, 0, 4, 5, 1, 2],
        [3, 0, 5, 1, 2, 4],
        [3, 1, 0, 4, 2, 5],
        [3, 1, 2, 5, 0, 4],
        [3, 1, 4, 2, 5, 0],
        [3, 1, 5, 0, 4, 2],
        [3, 2, 0, 5, 4, 1],
        [3, 2, 1, 0, 5, 4],
        [3, 2, 4, 1, 0, 5],
        [3, 2, 5, 4, 1, 0],
        [3, 4, 0, 1, 5, 2],
        [3, 4, 1, 5, 2, 0],
        [3, 4, 2, 0, 1, 5],
        [3, 4, 5, 2, 0, 1],
        [3, 5, 0, 2, 1, 4],
        [3, 5, 1, 4, 0, 2],
        [3, 5, 2, 1, 4, 0],
        [3, 5, 4, 0, 2, 1],
        [4, 0, 1, 3, 5, 2],
        [4, 0, 2, 1, 3, 5],
        [4, 0, 3, 5, 2, 1],
        [4, 0, 5, 2, 1, 3],
        [4, 1, 0, 5, 3, 2],
        [4, 1, 2, 0, 5, 3],
        [4, 1, 3, 2, 0, 5],
        [4, 1, 5, 3, 2, 0],
        [4, 2, 0, 3, 1, 5],
        [4, 2, 1, 5, 0, 3],
        [4, 2, 3, 1, 5, 0],
        [4, 2, 5, 0, 3, 1],
        [4, 3, 0, 2, 5, 1],
        [4, 3, 1, 0, 2, 5],
        [4, 3, 2, 5, 1, 0],
        [4, 3, 5, 1, 0, 2],
        [4, 5, 0, 1, 2, 3],
        [4, 5, 1, 2, 3, 0],
        [4, 5, 2, 3, 0, 1],
        [4, 5, 3, 0, 1, 2],
        [5, 0, 1, 4, 2, 3],
        [5, 0, 2, 3, 1, 4],
        [5, 0, 3, 1, 4, 2],
        [5, 0, 4, 2, 3, 1],
        [5, 1, 0, 2, 4, 3],
        [5, 1, 2, 4, 3, 0],
        [5, 1, 3, 0, 2, 4],
        [5, 1, 4, 3, 0, 2],
        [5, 2, 0, 1, 3, 4],
        [5, 2, 1, 3, 4, 0],
        [5, 2, 3, 4, 0, 1],
        [5, 2, 4, 0, 1, 3],
        [5, 3, 0, 4, 1, 2],
        [5, 3, 1, 2, 0, 4],
        [5, 3, 2, 0, 4, 1],
        [5, 3, 4, 1, 2, 0],
        [5, 4, 0, 3, 2, 1],
        [5, 4, 1, 0, 3, 2],
        [5, 4, 2, 1, 0, 3],
        [5, 4, 3, 2, 1, 0],
    ];
    let cp = table[coord as usize];
    assert(cp@ =~= corner_arrangement(coord as nat));
    cp
}

/// The number of an arrangement of the corners: its rank among the
/// permutations of six labels, without the three lowest digits.
pub open spec fn corner_number(cp: Seq<u8>) -> nat {
    lehmer_rank(cp) / 6
}

/// The number that the corners in the first three places spell.
pub open spec fn leading_number(a: u8, b: u8, c: u8) -> int {
    20 * a + 4 * (b - indicator(a < b)) + (c - indicator(a < c) - indicator(b < c))
}

/// The number of an arrangement goes by the corners in its first three
/// places.
pub proof fn lemma_corner_number(cp: Seq<u8>)
    requires
        cp.len() == 6,
        is_permutation(cp),
    ensures
        corner_number(cp) == leading_number(cp[0], cp[1], cp[2]),
        corner_number(cp) < CP_SIZE,
{
    let s1 = cp.drop_first();
    let s2 = s1.drop_first();
    let s3 = s2.drop_first();
    assert(s1[0] == cp[1] && s2[0] == cp[2]);
    lemma_fact_values();
    lemma_rank_bound(s3);
    lemma_rank_bound(cp);
    lemma_permutation_count_below(cp, cp[0] as int);
    lemma_permutation_count_below(cp, cp[1] as int);
    lemma_permutation_count_below(cp, cp[2] as int);
    lemma_count_below_drop_first(cp, cp[0] as int);
    lemma_count_below_drop_first(cp, cp[1] as int);
    lemma_count_below_drop_first(cp, cp[2] as int);
    lemma_count_below_drop_first(s1, cp[1] as int);
    lemma_count_below_drop_first(s1, cp[2] as int);
    lemma_count_below_drop_first(s2, cp[2] as int);
    let d0 = count_below(s1, cp[0] as int);
    let d1 = count_below(s2, cp[1] as int);
    let d2 = count_below(s3, cp[2] as int);
    let r3 = lehmer_rank(s3);
    assert(lehmer_rank(s2) == d2 * 6 + r3);
    assert(lehmer_rank(s1) == d1 * 24 + lehmer_rank(s2));
    assert(lehmer_rank(cp) == d0 * 120 + lehmer_rank(s1));
}

/// Six labels below 6, no two the same, are a permutation.
proof fn lemma_six_labels(s: Seq<u8>)
    requires
        s.len() == 6,
        s[0] < 6 && s[1] < 6 && s[2] < 6 && s[3] < 6 && s[4] < 6 && s[5] < 6,
        s[0] != s[1] && s[0] != s[2] && s[0] != s[3] && s[0] != s[4] && s[0] != s[5],
        s[1] != s[2] && s[1] != s[3] && s[1] != s[4] && s[1] != s[5],
        s[2] != s[3] && s[2] != s[4] && s[2] != s[5],
        s[3] != s[4] && s[3] != s[5],
        s[4] != s[5],
    ensures
        is_permutation(s),
{
}

/// The entries of the table that start with corner 0 are permutations,
/// and the number of each is its place in the table.
proof fn lemma_corner_arrangement_0(coord: nat)
    requires
        0 <= coord < 20,
    ensures
        corner_arrangement(coord).len() == 6,
        is_permutation(corner_arrangement(coord)),
        corner_number(corner_arrangement(coord)) == coord,
{
    if coord == 0 {
        let cp = seq![0u8, 1, 2, 3, 4, 5];
        lemma_six_labels(cp);
        lemma_corner_number(cp);
    } else if coord == 1 {
        let cp = seq![0u8, 1, 3, 4, 5, 2];
        lemma_six_labels(cp);
        lemma_corner_number(cp);
    } else if coord == 2 {
        let cp = seq![0u8, 1, 4, 5, 2, 3];
        lemma_six_labels(cp);
        lemma_corner_number(cp);
    } else if coord == 3 {
        let cp = seq![0u8, 1, 5, 2, 3, 4];
        lemma_six_labels(cp);
        lemma_corner_number(cp);
    } else if coord == 4 {
        let cp = seq![0u8, 2, 1, 4, 3, 5];
        lemma_six_labels(cp);
        lemma_corner_number(cp);
    } else if coord == 5 {
        let cp = seq![0u8, 2, 3, 5, 1, 4];
        lemma_six_labels(cp);
        lemma_corner_number(cp);
    } else if coord == 6 {
        let cp = seq![0u8, 2, 4, 3, 5, 1];
        lemma_six_labels(cp);
        lemma_corner_number(cp);
    } else if coord == 7 {
        let cp = seq![0u8, 2, 5, 1, 4, 3];
        lemma_six_labels(cp);
        lemma_corner_number(cp);
    } else if coord == 8 {
        let cp = seq![0u8, 3, 1, 5, 4, 2];
        lemma_six_labels(cp);
        lemma_corner_number(cp);
    } else if coord == 9 {
        let cp = seq![0u8, 3, 2, 1, 5, 4];
        lemma_six_labels(cp);
        lemma_corner_number(cp);
    } else if coord == 10 {
        let cp = seq![0u8, 3, 4, 2, 1, 5];
        lemma_six_labels(cp);
        lemma_corner_number(cp);
    } else if coord == 11 {
        let cp = seq![0u8, 3, 5, 4, 2, 1];
        lemma_six_labels(cp);
        lemma_corner_number(cp);
    } else if coord == 12 {
        let cp = seq![0u8, 4, 1, 2, 5, 3];
        lemma_six_labels(cp);
        lemma_corner_number(cp);
    } else if coord == 13 {
        let cp = seq![0u8, 4, 2, 5, 3, 1];
        lemma_six_labels(cp);
        lemma_corner_number(cp);
    } else if coord == 14 {
        let cp = seq![0u8, 4, 3, 1, 2, 5];
        lemma_six_labels(cp);
        lemma_corner_number(cp);
    } else if coord == 15 {
        let cp = seq![0u8, 4, 5, 3, 1, 2];
        lemma_six_labels(cp);
        lemma_corner_number(cp);
    } else if coord == 16 {
        let cp = seq![0u8, 5, 1, 3, 2, 4];
        lemma_six_labels(cp);
        lemma_corner_number(cp);
    } else if coord == 17 {
        let cp = seq![0u8, 5, 2, 4, 1, 3];
        lemma_six_labels(cp);
        lemma_corner_number(cp);
    } else if coord == 18 {
        let cp = seq![0u8, 5, 3, 2, 4, 1];
        lemma_six_labels(cp);
        lemma_corner_number(cp);
    } else if coord == 19 {
        let cp = seq![0u8, 5, 4, 1, 3, 2];
        lemma_six_labels(cp);
        lemma_corner_number(cp);
    }
}

/// The entries of the table that start with corner 1 are permutations,
/// and the number of each is its place in the table.
proof fn lemma_corner_arrangement_1(coord: nat)
    requires
        20 <= coord < 40,
    ensures
        corner_arrangement(coord).len() == 6,
        is_permutation(corner_arrangement(coord)),
        corner_number(corner_arrangement(coord)) == coord,
{
    if coord == 20 {
        let cp = seq![1u8, 0, 2, 5, 4, 3];
        lemma_six_labels(cp);
        lemma_corner_number(cp);
    } else if coord == 21 {
        let cp = seq![1u8, 0, 3, 2, 5, 4];
        lemma_six_labels(cp);
        lemma_corner_number(cp);
    } else if coord == 22 {
        let cp = seq![1u8, 0, 4, 3, 2, 5];
        lemma_six_labels(cp);
        lemma_corner_number(cp);
    } else if coord == 23 {
        let cp = seq![1u8, 0, 5, 4, 3, 2];
        lemma_six_labels(cp);
        lemma_corner_number(cp);
    } else if coord == 24 {
        let cp = seq![1u8, 2, 0, 4, 5, 3];
        lemma_six_labels(cp);
        lemma_corner_number(cp);
    } else if coord == 25 {
        let cp = seq![1u8, 2, 3, 0, 4, 5];
        lemma_six_labels(cp);
        lemma_corner_number(cp);
    } else if coord == 26 {
        let cp = seq![1u8, 2, 4, 5, 3, 0];
        lemma_six_labels(cp);
        lemma_corner_number(cp);
    } else if coord == 27 {
        let cp = seq![1u8, 2, 5, 3, 0, 4];
        lemma_six_labels(cp);
        lemma_corner_number(cp);
    } else if coord == 28 {
        let cp = seq![1u8, 3, 0, 5, 2, 4];
        lemma_six_labels(cp);
        lemma_corner_number(cp);
    } else if coord == 29 {
        let cp = seq![1u8, 3, 2, 4, 0, 5];
        lemma_six_labels(cp);
        lemma_corner_number(cp);
    } else if coord == 30 {
        let cp = seq![1u8, 3, 4, 0, 5, 2];
        lemma_six_labels(cp);
        lemma_corner_number(cp);
    } else if coord == 31 {
        let cp = seq![1u8, 3, 5, 2, 4, 0];
        lemma_six_labels(cp);
        lemma_corner_number(cp);
    } else if coord == 32 {
        let cp = seq![1u8, 4, 0, 2, 3, 5];
        lemma_six_labels(cp);
        lemma_corner_number(cp);
    } else if coord == 33 {
        let cp = seq![1u8, 4, 2, 3, 5, 0];
        lemma_six_labels(cp);
        lemma_corner_number(cp);
    } else if coord == 34 {
        let cp = seq![1u8, 4, 3, 5, 0, 2];
        lemma_six_labels(cp);
        lemma_corner_number(cp);
    } else if coord == 35 {
        let cp = seq![1u8, 4, 5, 0, 2, 3];
        lemma_six_labels(cp);
        lemma_corner_number(cp);
    } else if coord == 36 {
        let cp = seq![1u8, 5, 0, 3, 4, 2];
        lemma_six_labels(cp);
        lemma_corner_number(cp);
    } else if coord == 37 {
        let cp = seq![1u8, 5, 2, 0, 3, 4];
        lemma_six_labels(cp);
        lemma_corner_number(cp);
    } else if coord == 38 {
        let cp = seq![1u8, 5, 3, 4, 2, 0];
        lemma_six_labels(cp);
        lemma_corner_number(cp);
    } else if coord == 39 {
        let cp = seq![1u8, 5, 4, 2, 0, 3];
        lemma_six_labels(cp);
        lemma_corner_number(cp);
    }
}

/// The entries of the table that start with corner 2 are permutations,
/// and the number of each is its place in the table.
proof fn lemma_corner_arrangement_2(coord: nat)
    requires
        40 <= coord < 60,
    ensures
        corner_arrangement(coord).len() == 6,
        is_permutation(corner_arrangement(coord)),
        corner_number(corner_arrangement(coord)) == coord,
{
    if coord == 40 {
        let cp = seq![2u8, 0, 1, 5, 3, 4];
        lemma_six_labels(cp);
        lemma_corner_number(cp);
    } else if coord == 41 {
        let cp = seq![2u8, 0, 3, 4, 1, 5];
        lemma_six_labels(cp);
        lemma_corner_number(cp);
    } else if coord == 42 {
        let cp = seq![2u8, 0, 4, 1, 5, 3];
        lemma_six_labels(cp);
        lemma_corner_number(cp);
    } else if coord == 43 {
        let cp = seq![2u8, 0, 5, 3, 4, 1];
        lemma_six_labels(cp);
        lemma_corner_number(cp);
    } else if coord == 44 {
        let cp = seq![2u8, 1, 0, 3, 5, 4];
        lemma_six_labels(cp);
        lemma_corner_number(cp);
    } else if coord == 45 {
        let cp = seq![2u8, 1, 3, 5, 4, 0];
        lemma_six_labels(cp);
        lemma_corner_number(cp);
    } else if coord == 46 {
        let cp = seq![2u8, 1, 4, 0, 3, 5];
        lemma_six_labels(cp);
        lemma_corner_number(cp);
    } else if coord == 47 {
        let cp = seq![2u8, 1, 5, 4, 0, 3];
        lemma_six_labels(cp);
        lemma_corner_number(cp);
    } else if coord == 48 {
        let cp = seq![2u8, 3, 0, 1, 4, 5];
        lemma_six_labels(cp);
        lemma_corner_number(cp);
    } else if coord == 49 {
        let cp = seq![2u8, 3, 1, 4, 5, 0];
        lemma_six_labels(cp);
        lemma_corner_number(cp);
    } else if coord == 50 {
        let cp = seq![2u8, 3, 4, 5, 0, 1];
        lemma_six_labels(cp);
        lemma_corner_number(cp);
    } else if coord == 51 {
        let cp = seq![2u8, 3, 5, 0, 1, 4];
        lemma_six_labels(cp);
        lemma_corner_number(cp);
    } else if coord == 52 {
        let cp = seq![2u8, 4, 0, 5, 1, 3];
        lemma_six_labels(cp);
        lemma_corner_number(cp);
    } else if coord == 53 {
        let cp = seq![2u8, 4, 1, 3, 0, 5];
        lemma_six_labels(cp);
        lemma_corner_number(cp);
    } else if coord == 54 {
        let cp = seq![2u8, 4, 3, 0, 5, 1];
        lemma_six_labels(cp);
        lemma_corner_number(cp);
    } else if coord == 55 {
        let cp = seq![2u8, 4, 5, 1, 3, 0];
        lemma_six_labels(cp);
        lemma_corner_number(cp);
    } else if coord == 56 {
        let cp = seq![2u8, 5, 0, 4, 3, 1];
        lemma_six_labels(cp);
        lemma_corner_number(cp);
    } else if coord == 57 {
        let cp = seq![2u8, 5, 1, 0, 4, 3];
        lemma_six_labels(cp);
        lemma_corner_number(cp);
    } else if coord == 58 {
        let cp = seq![2u8, 5, 3, 1, 0, 4];
        lemma_six_labels(cp);
        lemma_corner_number(cp);
    } else if coord == 59 {
        let cp = seq![2u8, 5, 4, 3, 1, 0];
        lemma_six_labels(cp);
        lemma_corner_number(cp);
    }
}

/// The entries of the table that start with corner 3 are permutations,
/// and the number of each is its place in the table.
proof fn lemma_corner_arrangement_3(coord: nat)
    requires
        60 <= coord < 80,
    ensures
        corner_arrangement(coord).len() == 6,
        is_permutation(corner_arrangement(coord)),
        corner_number(corner_arrangement(coord)) == coord,
{
    if coord == 60 {
        let cp = seq![3u8, 0, 1, 2, 4, 5];
        lemma_six_labels(cp);
        lemma_corner_number(cp);
    } else if coord == 61 {
        let cp = seq![3u8, 0, 2, 4, 5, 1];
        lemma_six_labels(cp);
        lemma_corner_number(cp);
    } else if coord == 62 {
        let cp = seq![3u8, 0, 4, 5, 1, 2];
        lemma_six_labels(cp);
        lemma_corner_number(cp);
    } else if coord == 63 {
        let cp = seq![3u8, 0, 5, 1, 2, 4];
        lemma_six_labels(cp);
        lemma_corner_number(cp);
    } else if coord == 64 {
        let cp = seq![3u8, 1, 0, 4, 2, 5];
        lemma_six_labels(cp);
        lemma_corner_number(cp);
    } else if coord == 65 {
        let cp = seq![3u8, 1, 2, 5, 0, 4];
        lemma_six_labels(cp);
        lemma_corner_number(cp);
    } else if coord == 66 {
        let cp = seq![3u8, 1, 4, 2, 5, 0];
        lemma_six_labels(cp);
        lemma_corner_number(cp);
    } else if coord == 67 {
        let cp = seq![3u8, 1, 5, 0, 4, 2];
        lemma_six_labels(cp);
        lemma_corner_number(cp);
    } else if coord == 68 {
        let cp = seq![3u8, 2, 0, 5, 4, 1];
        lemma_six_labels(cp);
        lemma_corner_number(cp);
    } else if coord == 69 {
        let cp = seq![3u8, 2, 1, 0, 5, 4];
        lemma_six_labels(cp);
        lemma_corner_number(cp);
    } else if coord == 70 {
        let cp = seq![3u8, 2, 4, 1, 0, 5];
        lemma_six_labels(cp);
        lemma_corner_number(cp);
    } else if coord == 71 {
        let cp = seq![3u8, 2, 5, 4, 1, 0];
        lemma_six_labels(cp);
        lemma_corner_number(cp);
    } else if coord == 72 {
        let cp = seq![3u8, 4, 0, 1, 5, 2];
        lemma_six_labels(cp);
        lemma_corner_number(cp);
    } else if coord == 73 {
        let cp = seq![3u8, 4, 1, 5, 2, 0];
        lemma_six_labels(cp);
        lemma_corner_number(cp);
    } else if coord == 74 {
        let cp = seq![3u8, 4, 2, 0, 1, 5];
        lemma_six_labels(cp);
        lemma_corner_number(cp);
    } else if coord == 75 {
        let cp = seq![3u8, 4, 5, 2, 0, 1];
        lemma_six_labels(cp);
        lemma_corner_number(cp);
    } else if coord == 76 {
        let cp = seq![3u8, 5, 0, 2, 1, 4];
        lemma_six_labels(cp);
        lemma_corner_number(cp);
    } else if coord == 77 {
        let cp = seq![3u8, 5, 1, 4, 0, 2];
        lemma_six_labels(cp);
        lemma_corner_number(cp);
    } else if coord == 78 {
        let cp = seq![3u8, 5, 2, 1, 4, 0];
        lemma_six_labels(cp);
        lemma_corner_number(cp);
    } else if coord == 79 {
        let cp = seq![3u8, 5, 4, 0, 2, 1];
        lemma_six_labels(cp);
        lemma_corner_number(cp);
    }
}

/// The entries of the table that start with corner 4 are permutations,
/// and the number of each is its place in the table.
proof fn lemma_corner_arrangement_4(coord: nat)
    requires
        80 <= coord < 100,
    ensures
        corner_arrangement(coord).len() == 6,
        is_permutation(corner_arrangement(coord)),
        corner_number(corner_arrangement(coord)) == coord,
{
    if coord == 80 {
        let cp = seq![4u8, 0, 1, 3, 5, 2];
        lemma_six_labels(cp);
        lemma_corner_number(cp);
    } else if coord == 81 {
        let cp = seq![4u8, 0, 2, 1, 3, 5];
        lemma_six_labels(cp);
        lemma_corner_number(cp);
    } else if coord == 82 {
        let cp = seq![4u8, 0, 3, 5, 2, 1];
        lemma_six_labels(cp);
        lemma_corner_number(cp);
    } else if coord == 83 {
        let cp = seq![4u8, 0, 5, 2, 1, 3];
        lemma_six_labels(cp);
        lemma_corner_number(cp);
    } else if coord == 84 {
        let cp = seq![4u8, 1, 0, 5, 3, 2];
        lemma_six_labels(cp);
        lemma_corner_number(cp);
    } else if coord == 85 {
        let cp = seq![4u8, 1, 2, 0, 5, 3];
        lemma_six_labels(cp);
        lemma_corner_number(cp);
    } else if coord == 86 {
        let cp = seq![4u8, 1, 3, 2, 0, 5];
        lemma_six_labels(cp);
        lemma_corner_number(cp);
    } else if coord == 87 {
        let cp = seq![4u8, 1, 5, 3, 2, 0];
        lemma_six_labels(cp);
        lemma_corner_number(cp);
    } else if coord == 88 {
        let cp = seq![4u8, 2, 0, 3, 1, 5];
        lemma_six_labels(cp);
        lemma_corner_number(cp);
    } else if coord == 89 {
        let cp = seq![4u8, 2, 1, 5, 0, 3];
        lemma_six_labels(cp);
        lemma_corner_number(cp);
    } else if coord == 90 {
        let cp = seq![4u8, 2, 3, 1, 5, 0];
        lemma_six_labels(cp);
        lemma_corner_number(cp);
    } else if coord == 91 {
        let cp = seq![4u8, 2, 5, 0, 3, 1];
        lemma_six_labels(cp);
        lemma_corner_number(cp);
    } else if coord == 92 {
        let cp = seq![4u8, 3, 0, 2, 5, 1];
        lemma_six_labels(cp);
        lemma_corner_number(cp);
    } else if coord == 93 {
        let cp = seq![4u8, 3, 1, 0, 2, 5];
        lemma_six_labels(cp);
        lemma_corner_number(cp);
    } else if coord == 94 {
        let cp = seq![4u8, 3, 2, 5, 1, 0];
        lemma_six_labels(cp);
        lemma_corner_number(cp);
    } else if coord == 95 {
        let cp = seq![4u8, 3, 5, 1, 0, 2];
        lemma_six_labels(cp);
        lemma_corner_number(cp);
    } else if coord == 96 {
        let cp = seq![4u8, 5, 0, 1, 2, 3];
        lemma_six_labels(cp);
        lemma_corner_number(cp);
    } else if coord == 97 {
        let cp = seq![4u8, 5, 1, 2, 3, 0];
        lemma_six_labels(cp);
        lemma_corner_number(cp);
    } else if coord == 98 {
        let cp = seq![4u8, 5, 2, 3, 0, 1];
        lemma_six_labels(cp);
        lemma_corner_number(cp);
    } else if coord == 99 {
        let cp = seq![4u8, 5, 3, 0, 1, 2];
        lemma_six_labels(cp);
        lemma_corner_number(cp);
    }
}

/// The entries of the table that start with corner 5 are permutations,
/// and the number of each is its place in the table.
proof fn lemma_corner_arrangement_5(coord: nat)
    requires
        100 <= coord < 120,
    ensures
        corner_arrangement(coord).len() == 6,
        is_permutation(corner_arrangement(coord)),
        corner_number(corner_arrangement(coord)) == coord,
{
    if coord == 100 {
        let cp = seq![5u8, 0, 1, 4, 2, 3];
        lemma_six_labels(cp);
        lemma_corner_number(cp);
    } else if coord == 101 {
        let cp = seq![5u8, 0, 2, 3, 1, 4];
        lemma_six_labels(cp);
        lemma_corner_number(cp);
    } else if coord == 102 {
        let cp = seq![5u8, 0, 3, 1, 4, 2];
        lemma_six_labels(cp);
        lemma_corner_number(cp);
    } else if coord == 103 {
        let cp = seq![5u8, 0, 4, 2, 3, 1];
        lemma_six_labels(cp);
        lemma_corner_number(cp);
    } else if coord == 104 {
        let cp = seq![5u8, 1, 0, 2, 4, 3];
        lemma_six_labels(cp);
        lemma_corner_number(cp);
    } else if coord == 105 {
        let cp = seq![5u8, 1, 2, 4, 3, 0];
        lemma_six_labels(cp);
        lemma_corner_number(cp);
    } else if coord == 106 {
        let cp = seq![5u8, 1, 3, 0, 2, 4];
        lemma_six_labels(cp);
        lemma_corner_number(cp);
    } else if coord == 107 {
        let cp = seq![5u8, 1, 4, 3, 0, 2];
        lemma_six_labels(cp);
        lemma_corner_number(cp);
    } else if coord == 108 {
        let cp = seq![5u8, 2, 0, 1, 3, 4];
        lemma_six_labels(cp);
        lemma_corner_number(cp);
    } else if coord == 109 {
        let cp = seq![5u8, 2, 1, 3, 4, 0];
        lemma_six_labels(cp);
        lemma_corner_number(cp);
    } else if coord == 110 {
        let cp = seq![5u8, 2, 3, 4, 0, 1];
        lemma_six_labels(cp);
        lemma_corner_number(cp);
    } else if coord == 111 {
        let cp = seq![5u8, 2, 4, 0, 1, 3];
        lemma_six_labels(cp);
        lemma_corner_number(cp);
    } else if coord == 112 {
        let cp = seq![5u8, 3, 0, 4, 1, 2];
        lemma_six_labels(cp);
        lemma_corner_number(cp);
    } else if coord == 113 {
        let cp = seq![5u8, 3, 1, 2, 0, 4];
        lemma_six_labels(cp);
        lemma_corner_number(cp);
    } else if coord == 114 {
        let cp = seq![5u8, 3, 2, 0, 4, 1];
        lemma_six_labels(cp);
        lemma_corner_number(cp);
    } else if coord == 115 {
        let cp = seq![5u8, 3, 4, 1, 2, 0];
        lemma_six_labels(cp);
        lemma_corner_number(cp);
    } else if coord == 116 {
        let cp = seq![5u8, 4, 0, 3, 2, 1];
        lemma_six_labels(cp);
        lemma_corner_number(cp);
    } else if coord == 117 {
        let cp = seq![5u8, 4, 1, 0, 3, 2];
        lemma_six_labels(cp);
        lemma_corner_number(cp);
    } else if coord == 118 {
        let cp = seq![5u8, 4, 2, 1, 0, 3];
        lemma_six_labels(cp);
        lemma_corner_number(cp);
    } else if coord == 119 {
        let cp = seq![5u8, 4, 3, 2, 1, 0];
        lemma_six_labels(cp);
        lemma_corner_number(cp);
    }
}

/// Every entry of the table is a permutation, and its number is its place
/// in the table.
pub proof fn lemma_corner_arrangement(coord: nat)
    requires
        coord < CP_SIZE,
    ensures
        corner_arrangement(coord).len() == 6,
        is_permutation(corner_arrangement(coord)),
        corner_number(corner_arrangement(coord)) == coord,
{
    if coord < 20 {
        lemma_corner_arrangement_0(coord);
    } else if coord < 40 {
        lemma_corner_arrangement_1(coord);
    } else if coord < 60 {
        lemma_corner_arrangement_2(coord);
    } else if coord < 80 {
        lemma_corner_arrangement_3(coord);
    } else if coord < 100 {
        lemma_corner_arrangement_4(coord);
    } else {
        lemma_corner_arrangement_5(coord);
    }
}

/// The corners are arranged as the turns can arrange them: the arrangement
/// is the one that the table has for its number.
pub open spec fn in_corner_group(cp: Seq<u8>) -> bool {
    corner_arrangement(corner_number(cp)) == cp
}

/// U and R take the entries of the table that start with corner 0 to
/// entries of the table.
proof fn lemma_turned_entries_0(coord: nat)
    requires
        0 <= coord < 20,
    ensures
        in_corner_group(cycled4(corner_arrangement(coord), 0, 1, 2, 3)),
        in_corner_group(cycled4(corner_arrangement(coord), 2, 5, 4, 3)),
{
    if coord == 0 {
        let cp = seq![0u8, 1, 2, 3, 4, 5];
        let u = seq![3u8, 0, 1, 2, 4, 5];
        let r = seq![0u8, 1, 3, 4, 5, 2];
        assert(cycled4(cp, 0, 1, 2, 3) =~= u);
        assert(cycled4(cp, 2, 5, 4, 3) =~= r);
        lemma_six_labels(u);
        lemma_six_labels(r);
        lemma_corner_number(u);
        lemma_corner_number(r);
        assert(corner_number(u) == 60);
        assert(corner_number(r) == 1);
    } else if coord == 1 {
        let cp = seq![0u8, 1, 3, 4, 5, 2];
        let u = seq![4u8, 0, 1, 3, 5, 2];
        let r = seq![0u8, 1, 4, 5, 2, 3];
        assert(cycled4(cp, 0, 1, 2, 3) =~= u);
        assert(cycled4(cp, 2, 5, 4, 3) =~= r);
        lemma_six_labels(u);
        lemma_six_labels(r);
        lemma_corner_number(u);
        lemma_corner_number(r);
        assert(corner_number(u) == 80);
        assert(corner_number(r) == 2);
    } else if coord == 2 {
        let cp = seq![0u8, 1, 4, 5, 2, 3];
        let u = seq![5u8, 0, 1, 4, 2, 3];
        let r = seq![0u8, 1, 5, 2, 3, 4];
        assert(cycled4(cp, 0, 1, 2, 3) =~= u);
        assert(cycled4(cp, 2, 5, 4, 3) =~= r);
        lemma_six_labels(u);
        lemma_six_labels(r);
        lemma_corner_number(u);
        lemma_corner_number(r);
        assert(corner_number(u) == 100);
        assert(corner_number(r) == 3);
    } else if coord == 3 {
        let cp = seq![0u8, 1, 5, 2, 3, 4];
        let u = seq![2u8, 0, 1, 5, 3, 4];
        let r = seq![0u8, 1, 2, 3, 4, 5];
        assert(cycled4(cp, 0, 1, 2, 3) =~= u);
        assert(cycled4(cp, 2, 5, 4, 3) =~= r);
        lemma_six_labels(u);
        lemma_six_labels(r);
        lemma_corner_number(u);
        lemma_corner_number(r);
        assert(corner_number(u) == 40);
        assert(corner_number(r) == 0);
    } else if coord == 4 {
        let cp = seq![0u8, 2, 1, 4, 3, 5];
        let u = seq![4u8, 0, 2, 1, 3, 5];
        let r = seq![0u8, 2, 4, 3, 5, 1];
        assert(cycled4(cp, 0, 1, 2, 3) =~= u);
        assert(cycled4(cp, 2, 5, 4, 3) =~= r);
        lemma_six_labels(u);
        lemma_six_labels(r);
        lemma_corner_number(u);
        lemma_corner_number(r);
        assert(corner_number(u) == 81);
        assert(corner_number(r) == 6);
    } else if coord == 5 {
        let cp = seq![0u8, 2, 3, 5, 1, 4];
        let u = seq![5u8, 0, 2, 3, 1, 4];
        let r = seq![0u8, 2, 5, 1, 4, 3];
        assert(cycled4(cp, 0, 1, 2, 3) =~= u);
        assert(cycled4(cp, 2, 5, 4, 3) =~= r);
        lemma_six_labels(u);
        lemma_six_labels(r);
        lemma_corner_number(u);
        lemma_corner_number(r);
        assert(corner_number(u) == 101);
        assert(corner_number(r) == 7);
    } else if coord == 6 {
        let cp = seq![0u8, 2, 4, 3, 5, 1];
        let u = seq![3u8, 0, 2, 4, 5, 1];
        let r = seq![0u8, 2, 3, 5, 1, 4];
        assert(cycled4(cp, 0, 1, 2, 3) =~= u);
        assert(cycled4(cp, 2, 5, 4, 3) =~= r);
        lemma_six_labels(u);
        lemma_six_labels(r);
        lemma_corner_number(u);
        lemma_corner_number(r);
        assert(corner_number(u) == 61);
        assert(corner_number(r) == 5);
    } else if coord == 7 {
        let cp = seq![0u8, 2, 5, 1, 4, 3];
        let u = seq![1u8, 0, 2, 5, 4, 3];
        let r = seq![0u8, 2, 1, 4, 3, 5];
        assert(cycled4(cp, 0, 1, 2, 3) =~= u);
        assert(cycled4(cp, 2, 5, 4, 3) =~= r);
        lemma_six_labels(u);
        lemma_six_labels(r);
        lemma_corner_number(u);
        lemma_corner_number(r);
        assert(corner_number(u) == 20);
        assert(corner_number(r) == 4);
    } else if coord == 8 {
        let cp = seq![0u8, 3, 1, 5, 4, 2];
        let u = seq![5u8, 0, 3, 1, 4, 2];
        let r = seq![0u8, 3, 5, 4, 2, 1];
        assert(cycled4(cp, 0, 1, 2, 3) =~= u);
        assert(cycled4(cp, 2, 5, 4, 3) =~= r);
        lemma_six_labels(u);
        lemma_six_labels(r);
        lemma_corner_number(u);
        lemma_corner_number(r);
        assert(corner_number(u) == 102);
        assert(corner_number(r) == 11);
    } else if coord == 9 {
        let cp = seq![0u8, 3, 2, 1, 5, 4];
        let u = seq![1u8, 0, 3, 2, 5, 4];
        let r = seq![0u8, 3, 1, 5, 4, 2];
        assert(cycled4(cp, 0, 1, 2, 3) =~= u);
        assert(cycled4(cp, 2, 5, 4, 3) =~= r);
        lemma_six_labels(u);
        lemma_six_labels(r);
        lemma_corner_number(u);
        lemma_corner_number(r);
        assert(corner_number(u) == 21);
        assert(corner_number(r) == 8);
    } else if coord == 10 {
        let cp = seq![0u8, 3, 4, 2, 1, 5];
        let u = seq![2u8, 0, 3, 4, 1, 5];
        let r = seq![0u8, 3, 2, 1, 5, 4];
        assert(cycled4(cp, 0, 1, 2, 3) =~= u);
        assert(cycled4(cp, 2, 5, 4, 3) =~= r);
        lemma_six_labels(u);
        lemma_six_labels(r);
        lemma_corner_number(u);
        lemma_corner_number(r);
        assert(corner_number(u) == 41);
        assert(corner_number(r) == 9);
    } else if coord == 11 {
        let cp = seq![0u8, 3, 5, 4, 2, 1];
        let u = seq![4u8, 0, 3, 5, 2, 1];
        let r = seq![0u8, 3, 4, 2, 1, 5];
        assert(cycled4(cp, 0, 1, 2, 3) =~= u);
        assert(cycled4(cp, 2, 5, 4, 3) =~= r);
        lemma_six_labels(u);
        lemma_six_labels(r);
        lemma_corner_number(u);
        lemma_corner_number(r);
        assert(corner_number(u) == 82);
        assert(corner_number(r) == 10);
    } else if coord == 12 {
        let cp = seq![0u8, 4, 1, 2, 5, 3];
        let u = seq![2u8, 0, 4, 1, 5, 3];
        let r = seq![0u8, 4, 2, 5, 3, 1];
        assert(cycled4(cp, 0, 1, 2, 3) =~= u);
        assert(cycled4(cp, 2, 5, 4, 3) =~= r);
        lemma_six_labels(u);
        lemma_six_labels(r);
        lemma_corner_number(u);
        lemma_corner_number(r);
        assert(corner_number(u) == 42);
        assert(corner_number(r) == 13);
    } else if coord == 13 {
        let cp = seq![0u8, 4, 2, 5, 3, 1];
        let u = seq![5u8, 0, 4, 2, 3, 1];
        let r = seq![0u8, 4, 5, 3, 1, 2];
        assert(cycled4(cp, 0, 1, 2, 3) =~= u);
        assert(cycled4(cp, 2, 5, 4, 3) =~= r);
        lemma_six_labels(u);
        lemma_six_labels(r);
        lemma_corner_number(u);
        lemma_corner_number(r);
        assert(corner_number(u) == 103);
        assert(corner_number(r) == 15);
    } else if coord == 14 {
        let cp = seq![0u8, 4, 3, 1, 2, 5];
        let u = seq![1u8, 0, 4, 3, 2, 5];
        let r = seq![0u8, 4, 1, 2, 5, 3];
        assert(cycled4(cp, 0, 1, 2, 3) =~= u);
        assert(cycled4(cp, 2, 5, 4, 3) =~= r);
        lemma_six_labels(u);
        lemma_six_labels(r);
        lemma_corner_number(u);
        lemma_corner_number(r);
        assert(corner_number(u) == 22);
        assert(corner_number(r) == 12);
    } else if coord == 15 {
        let cp = seq![0u8, 4, 5, 3, 1, 2];
        let u = seq![3u8, 0, 4, 5, 1, 2];
        let r = seq![0u8, 4, 3, 1, 2, 5];
        assert(cycled4(cp, 0, 1, 2, 3) =~= u);
        assert(cycled4(cp, 2, 5, 4, 3) =~= r);
        lemma_six_labels(u);
        lemma_six_labels(r);
        lemma_corner_number(u);
        lemma_corner_number(r);
        assert(corner_number(u) == 62);
        assert(corner_number(r) == 14);
    } else if coord == 16 {
        let cp = seq![0u8, 5, 1, 3, 2, 4];
        let u = seq![3u8, 0, 5, 1, 2, 4];
        let r = seq![0u8, 5, 3, 2, 4, 1];
        assert(cycled4(cp, 0, 1, 2, 3) =~= u);
        assert(cycled4(cp, 2, 5, 4, 3) =~= r);
        lemma_six_labels(u);
        lemma_six_labels(r);
        lemma_corner_number(u);
        lemma_corner_number(r);
        assert(corner_number(u) == 63);
        assert(corner_number(r) == 18);
    } else if coord == 17 {
        let cp = seq![0u8, 5, 2, 4, 1, 3];
        let u = seq![4u8, 0, 5, 2, 1, 3];
        let r = seq![0u8, 5, 4, 1, 3, 2];
        assert(cycled4(cp, 0, 1, 2, 3) =~= u);
        assert(cycled4(cp, 2, 5, 4, 3) =~= r);
        lemma_six_labels(u);
        lemma_six_labels(r);
        lemma_corner_number(u);
        lemma_corner_number(r);
        assert(corner_number(u) == 83);
        assert(corner_number(r) == 19);
    } else if coord == 18 {
        let cp = seq![0u8, 5, 3, 2, 4, 1];
        let u = seq![2u8, 0, 5, 3, 4, 1];
        let r = seq![0u8, 5, 2, 4, 1, 3];
        assert(cycled4(cp, 0, 1, 2, 3) =~= u);
        assert(cycled4(cp, 2, 5, 4, 3) =~= r);
        lemma_six_labels(u);
        lemma_six_labels(r);
        lemma_corner_number(u);
        lemma_corner_number(r);
        assert(corner_number(u) == 43);
        assert(corner_number(r) == 17);
    } else if coord == 19 {
        let cp = seq![0u8, 5, 4, 1, 3, 2];
        let u = seq![1u8, 0, 5, 4, 3, 2];
        let r = seq![0u8, 5, 1, 3, 2, 4];
        assert(cycled4(cp, 0, 1, 2, 3) =~= u);
        assert(cycled4(cp, 2, 5, 4, 3) =~= r);
        lemma_six_labels(u);
        lemma_six_labels(r);
        lemma_corner_number(u);
        lemma_corner_number(r);
        assert(corner_number(u) == 23);
        assert(corner_number(r) == 16);
    }
}

/// U and R take the entries of the table that start with corner 1 to
/// entries of the table.
proof fn lemma_turned_entries_1(coord: nat)
    requires
        20 <= coord < 40,
    ensures
        in_corner_group(cycled4(corner_arrangement(coord), 0, 1, 2, 3)),
        in_corner_group(cycled4(corner_arrangement(coord), 2, 5, 4, 3)),
{
    if coord == 20 {
        let cp = seq![1u8, 0, 2, 5, 4, 3];
        let u = seq![5u8, 1, 0, 2, 4, 3];
        let r = seq![1u8, 0, 5, 4, 3, 2];
        assert(cycled4(cp, 0, 1, 2, 3) =~= u);
        assert(cycled4(cp, 2, 5, 4, 3) =~= r);
        lemma_six_labels(u);
        lemma_six_labels(r);
        lemma_corner_number(u);
        lemma_corner_number(r);
        assert(corner_number(u) == 104);
        assert(corner_number(r) == 23);
    } else if coord == 21 {
        let cp = seq![1u8, 0, 3, 2, 5, 4];
        let u = seq![2u8, 1, 0, 3, 5, 4];
        let r = seq![1u8, 0, 2, 5, 4, 3];
        assert(cycled4(cp, 0, 1, 2, 3) =~= u);
        assert(cycled4(cp, 2, 5, 4, 3) =~= r);
        lemma_six_labels(u);
        lemma_six_labels(r);
        lemma_corner_number(u);
        lemma_corner_number(r);
        assert(corner_number(u) == 44);
        assert(corner_number(r) == 20);
    } else if coord == 22 {
        let cp = seq![1u8, 0, 4, 3, 2, 5];
        let u = seq![3u8, 1, 0, 4, 2, 5];
        let r = seq![1u8, 0, 3, 2, 5, 4];
        assert(cycled4(cp, 0, 1, 2, 3) =~= u);
        assert(cycled4(cp, 2, 5, 4, 3) =~= r);
        lemma_six_labels(u);
        lemma_six_labels(r);
        lemma_corner_number(u);
        lemma_corner_number(r);
        assert(corner_number(u) == 64);
        assert(corner_number(r) == 21);
    } else if coord == 23 {
        let cp = seq![1u8, 0, 5, 4, 3, 2];
        let u = seq![4u8, 1, 0, 5, 3, 2];
        let r = seq![1u8, 0, 4, 3, 2, 5];
        assert(cycled4(cp, 0, 1, 2, 3) =~= u);
        assert(cycled4(cp, 2, 5, 4, 3) =~= r);
        lemma_six_labels(u);
        lemma_six_labels(r);
        lemma_corner_number(u);
        lemma_corner_number(r);
        assert(corner_number(u) == 84);
        assert(corner_number(r) == 22);
    } else if coord == 24 {
        let cp = seq![1u8, 2, 0, 4, 5, 3];
        let u = seq![4u8, 1, 2, 0, 5, 3];
        let r = seq![1u8, 2, 4, 5, 3, 0];
        assert(cycled4(cp, 0, 1, 2, 3) =~= u);
        assert(cycled4(cp, 2, 5, 4, 3) =~= r);
        lemma_six_labels(u);
        lemma_six_labels(r);
        lemma_corner_number(u);
        lemma_corner_number(r);
        assert(corner_number(u) == 85);
        assert(corner_number(r) == 26);
    } else if coord == 25 {
        let cp = seq![1u8, 2, 3, 0, 4, 5];
        let u = seq![0u8, 1, 2, 3, 4, 5];
        let r = seq![1u8, 2, 0, 4, 5, 3];
        assert(cycled4(cp, 0, 1, 2, 3) =~= u);
        assert(cycled4(cp, 2, 5, 4, 3) =~= r);
        lemma_six_labels(u);
        lemma_six_labels(r);
        lemma_corner_number(u);
        lemma_corner_number(r);
        assert(corner_number(u) == 0);
        assert(corner_number(r) == 24);
    } else if coord == 26 {
        let cp = seq![1u8, 2, 4, 5, 3, 0];
        let u = seq![5u8, 1, 2, 4, 3, 0];
        let r = seq![1u8, 2, 5, 3, 0, 4];
        assert(cycled4(cp, 0, 1, 2, 3) =~= u);
        assert(cycled4(cp, 2, 5, 4, 3) =~= r);
        lemma_six_labels(u);
        lemma_six_labels(r);
        lemma_corner_number(u);
        lemma_corner_number(r);
        assert(corner_number(u) == 105);
        assert(corner_number(r) == 27);
    } else if coord == 27 {
        let cp = seq![1u8, 2, 5, 3, 0, 4];
        let u = seq![3u8, 1, 2, 5, 0, 4];
        let r = seq![1u8, 2, 3, 0, 4, 5];
        assert(cycled4(cp, 0, 1, 2, 3) =~= u);
        assert(cycled4(cp, 2, 5, 4, 3) =~= r);
        lemma_six_labels(u);
        lemma_six_labels(r);
        lemma_corner_number(u);
        lemma_corner_number(r);
        assert(corner_number(u) == 65);
        assert(corner_number(r) == 25);
    } else if coord == 28 {
        let cp = seq![1u8, 3, 0, 5, 2, 4];
        let u = seq![5u8, 1, 3, 0, 2, 4];
        let r = seq![1u8, 3, 5, 2, 4, 0];
        assert(cycled4(cp, 0, 1, 2, 3) =~= u);
        assert(cycled4(cp, 2, 5, 4, 3) =~= r);
        lemma_six_labels(u);
        lemma_six_labels(r);
        lemma_corner_number(u);
        lemma_corner_number(r);
        assert(corner_number(u) == 106);
        assert(corner_number(r) == 31);
    } else if coord == 29 {
        let cp = seq![1u8, 3, 2, 4, 0, 5];
        let u = seq![4u8, 1, 3, 2, 0, 5];
        let r = seq![1u8, 3, 4, 0, 5, 2];
        assert(cycled4(cp, 0, 1, 2, 3) =~= u);
        assert(cycled4(cp, 2, 5, 4, 3) =~= r);
        lemma_six_labels(u);
        lemma_six_labels(r);
        lemma_corner_number(u);
        lemma_corner_number(r);
        assert(corner_number(u) == 86);
        assert(corner_number(r) == 30);
    } else if coord == 30 {
        let cp = seq![1u8, 3, 4, 0, 5, 2];
        let u = seq![0u8, 1, 3, 4, 5, 2];
        let r = seq![1u8, 3, 0, 5, 2, 4];
        assert(cycled4(cp, 0, 1, 2, 3) =~= u);
        assert(cycled4(cp, 2, 5, 4, 3) =~= r);
        lemma_six_labels(u);
        lemma_six_labels(r);
        lemma_corner_number(u);
        lemma_corner_number(r);
        assert(corner_number(u) == 1);
        assert(corner_number(r) == 28);
    } else if coord == 31 {
        let cp = seq![1u8, 3, 5, 2, 4, 0];
        let u = seq![2u8, 1, 3, 5, 4, 0];
        let r = seq![1u8, 3, 2, 4, 0, 5];
        assert(cycled4(cp, 0, 1, 2, 3) =~= u);
        assert(cycled4(cp, 2, 5, 4, 3) =~= r);
        lemma_six_labels(u);
        lemma_six_labels(r);
        lemma_corner_number(u);
        lemma_corner_number(r);
        assert(corner_number(u) == 45);
        assert(corner_number(r) == 29);
    } else if coord == 32 {
        let cp = seq![1u8, 4, 0, 2, 3, 5];
        let u = seq![2u8, 1, 4, 0, 3, 5];
        let r = seq![1u8, 4, 2, 3, 5, 0];
        assert(cycled4(cp, 0, 1, 2, 3) =~= u);
        assert(cycled4(cp, 2, 5, 4, 3) =~= r);
        lemma_six_labels(u);
        lemma_six_labels(r);
        lemma_corner_number(u);
        lemma_corner_number(r);
        assert(corner_number(u) == 46);
        assert(corner_number(r) == 33);
    } else if coord == 33 {
        let cp = seq![1u8, 4, 2, 3, 5, 0];
        let u = seq![3u8, 1, 4, 2, 5, 0];
        let r = seq![1u8, 4, 3, 5, 0, 2];
        assert(cycled4(cp, 0, 1, 2, 3) =~= u);
        assert(cycled4(cp, 2, 5, 4, 3) =~= r);
        lemma_six_labels(u);
        lemma_six_labels(r);
        lemma_corner_number(u);
        lemma_corner_number(r);
        assert(corner_number(u) == 66);
        assert(corner_number(r) == 34);
    } else if coord == 34 {
        let cp = seq![1u8, 4, 3, 5, 0, 2];
        let u = seq![5u8, 1, 4, 3, 0, 2];
        let r = seq![1u8, 4, 5, 0, 2, 3];
        assert(cycled4(cp, 0, 1, 2, 3) =~= u);
        assert(cycled4(cp, 2, 5, 4, 3) =~= r);
        lemma_six_labels(u);
        lemma_six_labels(r);
        lemma_corner_number(u);
        lemma_corner_number(r);
        assert(corner_number(u) == 107);
        assert(corner_number(r) == 35);
    } else if coord == 35 {
        let cp = seq![1u8, 4, 5, 0, 2, 3];
        let u = seq![0u8, 1, 4, 5, 2, 3];
        let r = seq![1u8, 4, 0, 2, 3, 5];
        assert(cycled4(cp, 0, 1, 2, 3) =~= u);
        assert(cycled4(cp, 2, 5, 4, 3) =~= r);
        lemma_six_labels(u);
        lemma_six_labels(r);
        lemma_corner_number(u);
        lemma_corner_number(r);
        assert(corner_number(u) == 2);
        assert(corner_number(r) == 32);
    } else if coord == 36 {
        let cp = seq![1u8, 5, 0, 3, 4, 2];
        let u = seq![3u8, 1, 5, 0, 4, 2];
        let r = seq![1u8, 5, 3, 4, 2, 0];
        assert(cycled4(cp, 0, 1, 2, 3) =~= u);
        assert(cycled4(cp, 2, 5, 4, 3) =~= r);
        lemma_six_labels(u);
        lemma_six_labels(r);
        lemma_corner_number(u);
        lemma_corner_number(r);
        assert(corner_number(u) == 67);
        assert(corner_number(r) == 38);
    } else if coord == 37 {
        let cp = seq![1u8, 5, 2, 0, 3, 4];
        let u = seq![0u8, 1, 5, 2, 3, 4];
        let r = seq![1u8, 5, 0, 3, 4, 2];
        assert(cycled4(cp, 0, 1, 2, 3) =~= u);
        assert(cycled4(cp, 2, 5, 4, 3) =~= r);
        lemma_six_labels(u);
        lemma_six_labels(r);
        lemma_corner_number(u);
        lemma_corner_number(r);
        assert(corner_number(u) == 3);
        assert(corner_number(r) == 36);
    } else if coord == 38 {
        let cp = seq![1u8, 5, 3, 4, 2, 0];
        let u = seq![4u8, 1, 5, 3, 2, 0];
        let r = seq![1u8, 5, 4, 2, 0, 3];
        assert(cycled4(cp, 0, 1, 2, 3) =~= u);
        assert(cycled4(cp, 2, 5, 4, 3) =~= r);
        lemma_six_labels(u);
        lemma_six_labels(r);
        lemma_corner_number(u);
        lemma_corner_number(r);
        assert(corner_number(u) == 87);
        assert(corner_number(r) == 39);
    } else if coord == 39 {
        let cp = seq![1u8, 5, 4, 2, 0, 3];
        let u = seq![2u8, 1, 5, 4, 0, 3];
        let r = seq![1u8, 5, 2, 0, 3, 4];
        assert(cycled4(cp, 0, 1, 2, 3) =~= u);
        assert(cycled4(cp, 2, 5, 4, 3) =~= r);
        lemma_six_labels(u);
        lemma_six_labels(r);
        lemma_corner_number(u);
        lemma_corner_number(r);
        assert(corner_number(u) == 47);
        assert(corner_number(r) == 37);
    }
}

/// U and R take the entries of the table that start with corner 2 to
/// entries of the table.
proof fn lemma_turned_entries_2(coord: nat)
    requires
        40 <= coord < 60,
    ensures
        in_corner_group(cycled4(corner_arrangement(coord), 0, 1, 2, 3)),
        in_corner_group(cycled4(corner_arrangement(coord), 2, 5, 4, 3)),
{
    if coord == 40 {
        let cp = seq![2u8, 0, 1, 5, 3, 4];
        let u = seq![5u8, 2, 0, 1, 3, 4];
        let r = seq![2u8, 0, 5, 3, 4, 1];
        assert(cycled4(cp, 0, 1, 2, 3) =~= u);
        assert(cycled4(cp, 2, 5, 4, 3) =~= r);
        lemma_six_labels(u);
        lemma_six_labels(r);
        lemma_corner_number(u);
        lemma_corner_number(r);
        assert(corner_number(u) == 108);
        assert(corner_number(r) == 43);
    } else if coord == 41 {
        let cp = seq![2u8, 0, 3, 4, 1, 5];
        let u = seq![4u8, 2, 0, 3, 1, 5];
        let r = seq![2u8, 0, 4, 1, 5, 3];
        assert(cycled4(cp, 0, 1, 2, 3) =~= u);
        assert(cycled4(cp, 2, 5, 4, 3) =~= r);
        lemma_six_labels(u);
        lemma_six_labels(r);
        lemma_corner_number(u);
        lemma_corner_number(r);
        assert(corner_number(u) == 88);
        assert(corner_number(r) == 42);
    } else if coord == 42 {
        let cp = seq![2u8, 0, 4, 1, 5, 3];
        let u = seq![1u8, 2, 0, 4, 5, 3];
        let r = seq![2u8, 0, 1, 5, 3, 4];
        assert(cycled4(cp, 0, 1, 2, 3) =~= u);
        assert(cycled4(cp, 2, 5, 4, 3) =~= r);
        lemma_six_labels(u);
        lemma_six_labels(r);
        lemma_corner_number(u);
        lemma_corner_number(r);
        assert(corner_number(u) == 24);
        assert(corner_number(r) == 40);
    } else if coord == 43 {
        let cp = seq![2u8, 0, 5, 3, 4, 1];
        let u = seq![3u8, 2, 0, 5, 4, 1];
        let r = seq![2u8, 0, 3, 4, 1, 5];
        assert(cycled4(cp, 0, 1, 2, 3) =~= u);
        assert(cycled4(cp, 2, 5, 4, 3) =~= r);
        lemma_six_labels(u);
        lemma_six_labels(r);
        lemma_corner_number(u);
        lemma_corner_number(r);
        assert(corner_number(u) == 68);
        assert(corner_number(r) == 41);
    } else if coord == 44 {
        let cp = seq![2u8, 1, 0, 3, 5, 4];
        let u = seq![3u8, 2, 1, 0, 5, 4];
        let r = seq![2u8, 1, 3, 5, 4, 0];
        assert(cycled4(cp, 0, 1, 2, 3) =~= u);
        assert(cycled4(cp, 2, 5, 4, 3) =~= r);
        lemma_six_labels(u);
        lemma_six_labels(r);
        lemma_corner_number(u);
        lemma_corner_number(r);
        assert(corner_number(u) == 69);
        assert(corner_number(r) == 45);
    } else if coord == 45 {
        let cp = seq![2u8, 1, 3, 5, 4, 0];
        let u = seq![5u8, 2, 1, 3, 4, 0];
        let r = seq![2u8, 1, 5, 4, 0, 3];
        assert(cycled4(cp, 0, 1, 2, 3) =~= u);
        assert(cycled4(cp, 2, 5, 4, 3) =~= r);
        lemma_six_labels(u);
        lemma_six_labels(r);
        lemma_corner_number(u);
        lemma_corner_number(r);
        assert(corner_number(u) == 109);
        assert(corner_number(r) == 47);
    } else if coord == 46 {
        let cp = seq![2u8, 1, 4, 0, 3, 5];
        let u = seq![0u8, 2, 1, 4, 3, 5];
        let r = seq![2u8, 1, 0, 3, 5, 4];
        assert(cycled4(cp, 0, 1, 2, 3) =~= u);
        assert(cycled4(cp, 2, 5, 4, 3) =~= r);
        lemma_six_labels(u);
        lemma_six_labels(r);
        lemma_corner_number(u);
        lemma_corner_number(r);
        assert(corner_number(u) == 4);
        assert(corner_number(r) == 44);
    } else if coord == 47 {
        let cp = seq![2u8, 1, 5, 4, 0, 3];
        let u = seq![4u8, 2, 1, 5, 0, 3];
        let r = seq![2u8, 1, 4, 0, 3, 5];
        assert(cycled4(cp, 0, 1, 2, 3) =~= u);
        assert(cycled4(cp, 2, 5, 4, 3) =~= r);
        lemma_six_labels(u);
        lemma_six_labels(r);
        lemma_corner_number(u);
        lemma_corner_number(r);
        assert(corner_number(u) == 89);
        assert(corner_number(r) == 46);
    } else if coord == 48 {
        let cp = seq![2u8, 3, 0, 1, 4, 5];
        let u = seq![1u8, 2, 3, 0, 4, 5];
        let r = seq![2u8, 3, 1, 4, 5, 0];
        assert(cycled4(cp, 0, 1, 2, 3) =~= u);
        assert(cycled4(cp, 2, 5, 4, 3) =~= r);
        lemma_six_labels(u);
        lemma_six_labels(r);
        lemma_corner_number(u);
        lemma_corner_number(r);
        assert(corner_number(u) == 25);
        assert(corner_number(r) == 49);
    } else if coord == 49 {
        let cp = seq![2u8, 3, 1, 4, 5, 0];
        let u = seq![4u8, 2, 3, 1, 5, 0];
        let r = seq![2u8, 3, 4, 5, 0, 1];
        assert(cycled4(cp, 0, 1, 2, 3) =~= u);
        assert(cycled4(cp, 2, 5, 4, 3) =~= r);
        lemma_six_labels(u);
        lemma_six_labels(r);
        lemma_corner_number(u);
        lemma_corner_number(r);
        assert(corner_number(u) == 90);
        assert(corner_number(r) == 50);
    } else if coord == 50 {
        let cp = seq![2u8, 3, 4, 5, 0, 1];
        let u = seq![5u8, 2, 3, 4, 0, 1];
        let r = seq![2u8, 3, 5, 0, 1, 4];
        assert(cycled4(cp, 0, 1, 2, 3) =~= u);
        assert(cycled4(cp, 2, 5, 4, 3) =~= r);
        lemma_six_labels(u);
        lemma_six_labels(r);
        lemma_corner_number(u);
        lemma_corner_number(r);
        assert(corner_number(u) == 110);
        assert(corner_number(r) == 51);
    } else if coord == 51 {
        let cp = seq![2u8, 3, 5, 0, 1, 4];
        let u = seq![0u8, 2, 3, 5, 1, 4];
        let r = seq![2u8, 3, 0, 1, 4, 5];
        assert(cycled4(cp, 0, 1, 2, 3) =~= u);
        assert(cycled4(cp, 2, 5, 4, 3) =~= r);
        lemma_six_labels(u);
        lemma_six_labels(r);
        lemma_corner_number(u);
        lemma_corner_number(r);
        assert(corner_number(u) == 5);
        assert(corner_number(r) == 48);
    } else if coord == 52 {
        let cp = seq![2u8, 4, 0, 5, 1, 3];
        let u = seq![5u8, 2, 4, 0, 1, 3];
        let r = seq![2u8, 4, 5, 1, 3, 0];
        assert(cycled4(cp, 0, 1, 2, 3) =~= u);
        assert(cycled4(cp, 2, 5, 4, 3) =~= r);
        lemma_six_labels(u);
        lemma_six_labels(r);
        lemma_corner_number(u);
        lemma_corner_number(r);
        assert(corner_number(u) == 111);
        assert(corner_number(r) == 55);
    } else if coord == 53 {
        let cp = seq![2u8, 4, 1, 3, 0, 5];
        let u = seq![3u8, 2, 4, 1, 0, 5];
        let r = seq![2u8, 4, 3, 0, 5, 1];
        assert(cycled4(cp, 0, 1, 2, 3) =~= u);
        assert(cycled4(cp, 2, 5, 4, 3) =~= r);
        lemma_six_labels(u);
        lemma_six_labels(r);
        lemma_corner_number(u);
        lemma_corner_number(r);
        assert(corner_number(u) == 70);
        assert(corner_number(r) == 54);
    } else if coord == 54 {
        let cp = seq![2u8, 4, 3, 0, 5, 1];
        let u = seq![0u8, 2, 4, 3, 5, 1];
        let r = seq![2u8, 4, 0, 5, 1, 3];
        assert(cycled4(cp, 0, 1, 2, 3) =~= u);
        assert(cycled4(cp, 2, 5, 4, 3) =~= r);
        lemma_six_labels(u);
        lemma_six_labels(r);
        lemma_corner_number(u);
        lemma_corner_number(r);
        assert(corner_number(u) == 6);
        assert(corner_number(r) == 52);
    } else if coord == 55 {
        let cp = seq![2u8, 4, 5, 1, 3, 0];
        let u = seq![1u8, 2, 4, 5, 3, 0];
        let r = seq![2u8, 4, 1, 3, 0, 5];
        assert(cycled4(cp, 0, 1, 2, 3) =~= u);
        assert(cycled4(cp, 2, 5, 4, 3) =~= r);
        lemma_six_labels(u);
        lemma_six_labels(r);
        lemma_corner_number(u);
        lemma_corner_number(r);
        assert(corner_number(u) == 26);
        assert(corner_number(r) == 53);
    } else if coord == 56 {
        let cp = seq![2u8, 5, 0, 4, 3, 1];
        let u = seq![4u8, 2, 5, 0, 3, 1];
        let r = seq![2u8, 5, 4, 3, 1, 0];
        assert(cycled4(cp, 0, 1, 2, 3) =~= u);
        assert(cycled4(cp, 2, 5, 4, 3) =~= r);
        lemma_six_labels(u);
        lemma_six_labels(r);
        lemma_corner_number(u);
        lemma_corner_number(r);
        assert(corner_number(u) == 91);
        assert(corner_number(r) == 59);
    } else if coord == 57 {
        let cp = seq![2u8, 5, 1, 0, 4, 3];
        let u = seq![0u8, 2, 5, 1, 4, 3];
        let r = seq![2u8, 5, 0, 4, 3, 1];
        assert(cycled4(cp, 0, 1, 2, 3) =~= u);
        assert(cycled4(cp, 2, 5, 4, 3) =~= r);
        lemma_six_labels(u);
        lemma_six_labels(r);
        lemma_corner_number(u);
        lemma_corner_number(r);
        assert(corner_number(u) == 7);
        assert(corner_number(r) == 56);
    } else if coord == 58 {
        let cp = seq![2u8, 5, 3, 1, 0, 4];
        let u = seq![1u8, 2, 5, 3, 0, 4];
        let r = seq![2u8, 5, 1, 0, 4, 3];
        assert(cycled4(cp, 0, 1, 2, 3) =~= u);
        assert(cycled4(cp, 2, 5, 4, 3) =~= r);
        lemma_six_labels(u);
        lemma_six_labels(r);
        lemma_corner_number(u);
        lemma_corner_number(r);
        assert(corner_number(u) == 27);
        assert(corner_number(r) == 57);
    } else if coord == 59 {
        let cp = seq![2u8, 5, 4, 3, 1, 0];
        let u = seq![3u8, 2, 5, 4, 1, 0];
        let r = seq![2u8, 5, 3, 1, 0, 4];
        assert(cycled4(cp, 0, 1, 2, 3) =~= u);
        assert(cycled4(cp, 2, 5, 4, 3) =~= r);
        lemma_six_labels(u);
        lemma_six_labels(r);
        lemma_corner_number(u);
        lemma_corner_number(r);
        assert(corner_number(u) == 71);
        assert(corner_number(r) == 58);
    }
}

/// U and R take the entries of the table that start with corner 3 to
/// entries of the table.
proof fn lemma_turned_entries_3(coord: nat)
    requires
        60 <= coord < 80,
    ensures
        in_corner_group(cycled4(corner_arrangement(coord), 0, 1, 2, 3)),
        in_corner_group(cycled4(corner_arrangement(coord), 2, 5, 4, 3)),
{
    if coord == 60 {
        let cp = seq![3u8, 0, 1, 2, 4, 5];
        let u = seq![2u8, 3, 0, 1, 4, 5];
        let r = seq![3u8, 0, 2, 4, 5, 1];
        assert(cycled4(cp, 0, 1, 2, 3) =~= u);
        assert(cycled4(cp, 2, 5, 4, 3) =~= r);
        lemma_six_labels(u);
        lemma_six_labels(r);
        lemma_corner_number(u);
        lemma_corner_number(r);
        assert(corner_number(u) == 48);
        assert(corner_number(r) == 61);
    } else if coord == 61 {
        let cp = seq![3u8, 0, 2, 4, 5, 1];
        let u = seq![4u8, 3, 0, 2, 5, 1];
        let r = seq![3u8, 0, 4, 5, 1, 2];
        assert(cycled4(cp, 0, 1, 2, 3) =~= u);
        assert(cycled4(cp, 2, 5, 4, 3) =~= r);
        lemma_six_labels(u);
        lemma_six_labels(r);
        lemma_corner_number(u);
        lemma_corner_number(r);
        assert(corner_number(u) == 92);
        assert(corner_number(r) == 62);
    } else if coord == 62 {
        let cp = seq![3u8, 0, 4, 5, 1, 2];
        let u = seq![5u8, 3, 0, 4, 1, 2];
        let r = seq![3u8, 0, 5, 1, 2, 4];
        assert(cycled4(cp, 0, 1, 2, 3) =~= u);
        assert(cycled4(cp, 2, 5, 4, 3) =~= r);
        lemma_six_labels(u);
        lemma_six_labels(r);
        lemma_corner_number(u);
        lemma_corner_number(r);
        assert(corner_number(u) == 112);
        assert(corner_number(r) == 63);
    } else if coord == 63 {
        let cp = seq![3u8, 0, 5, 1, 2, 4];
        let u = seq![1u8, 3, 0, 5, 2, 4];
        let r = seq![3u8, 0, 1, 2, 4, 5];
        assert(cycled4(cp, 0, 1, 2, 3) =~= u);
        assert(cycled4(cp, 2, 5, 4, 3) =~= r);
        lemma_six_labels(u);
        lemma_six_labels(r);
        lemma_corner_number(u);
        lemma_corner_number(r);
        assert(corner_number(u) == 28);
        assert(corner_number(r) == 60);
    } else if coord == 64 {
        let cp = seq![3u8, 1, 0, 4, 2, 5];
        let u = seq![4u8, 3, 1, 0, 2, 5];
        let r = seq![3u8, 1, 4, 2, 5, 0];
        assert(cycled4(cp, 0, 1, 2, 3) =~= u);
        assert(cycled4(cp, 2, 5, 4, 3) =~= r);
        lemma_six_labels(u);
        lemma_six_labels(r);
        lemma_corner_number(u);
        lemma_corner_number(r);
        assert(corner_number(u) == 93);
        assert(corner_number(r) == 66);
    } else if coord == 65 {
        let cp = seq![3u8, 1, 2, 5, 0, 4];
        let u = seq![5u8, 3, 1, 2, 0, 4];
        let r = seq![3u8, 1, 5, 0, 4, 2];
        assert(cycled4(cp, 0, 1, 2, 3) =~= u);
        assert(cycled4(cp, 2, 5, 4, 3) =~= r);
        lemma_six_labels(u);
        lemma_six_labels(r);
        lemma_corner_number(u);
        lemma_corner_number(r);
        assert(corner_number(u) == 113);
        assert(corner_number(r) == 67);
    } else if coord == 66 {
        let cp = seq![3u8, 1, 4, 2, 5, 0];
        let u = seq![2u8, 3, 1, 4, 5, 0];
        let r = seq![3u8, 1, 2, 5, 0, 4];
        assert(cycled4(cp, 0, 1, 2, 3) =~= u);
        assert(cycled4(cp, 2, 5, 4, 3) =~= r);
        lemma_six_labels(u);
        lemma_six_labels(r);
        lemma_corner_number(u);
        lemma_corner_number(r);
        assert(corner_number(u) == 49);
        assert(corner_number(r) == 65);
    } else if coord == 67 {
        let cp = seq![3u8, 1, 5, 0, 4, 2];
        let u = seq![0u8, 3, 1, 5, 4, 2];
        let r = seq![3u8, 1, 0, 4, 2, 5];
        assert(cycled4(cp, 0, 1, 2, 3) =~= u);
        assert(cycled4(cp, 2, 5, 4, 3) =~= r);
        lemma_six_labels(u);
        lemma_six_labels(r);
        lemma_corner_number(u);
        lemma_corner_number(r);
        assert(corner_number(u) == 8);
        assert(corner_number(r) == 64);
    } else if coord == 68 {
        let cp = seq![3u8, 2, 0, 5, 4, 1];
        let u = seq![5u8, 3, 2, 0, 4, 1];
        let r = seq![3u8, 2, 5, 4, 1, 0];
        assert(cycled4(cp, 0, 1, 2, 3) =~= u);
        assert(cycled4(cp, 2, 5, 4, 3) =~= r);
        lemma_six_labels(u);
        lemma_six_labels(r);
        lemma_corner_number(u);
        lemma_corner_number(r);
        assert(corner_number(u) == 114);
        assert(corner_number(r) == 71);
    } else if coord == 69 {
        let cp = seq![3u8, 2, 1, 0, 5, 4];
        let u = seq![0u8, 3, 2, 1, 5, 4];
        let r = seq![3u8, 2, 0, 5, 4, 1];
        assert(cycled4(cp, 0, 1, 2, 3) =~= u);
        assert(cycled4(cp, 2, 5, 4, 3) =~= r);
        lemma_six_labels(u);
        lemma_six_labels(r);
        lemma_corner_number(u);
        lemma_corner_number(r);
        assert(corner_number(u) == 9);
        assert(corner_number(r) == 68);
    } else if coord == 70 {
        let cp = seq![3u8, 2, 4, 1, 0, 5];
        let u = seq![1u8, 3, 2, 4, 0, 5];
        let r = seq![3u8, 2, 1, 0, 5, 4];
        assert(cycled4(cp, 0, 1, 2, 3) =~= u);
        assert(cycled4(cp, 2, 5, 4, 3) =~= r);
        lemma_six_labels(u);
        lemma_six_labels(r);
        lemma_corner_number(u);
        lemma_corner_number(r);
        assert(corner_number(u) == 29);
        assert(corner_number(r) == 69);
    } else if coord == 71 {
        let cp = seq![3u8, 2, 5, 4, 1, 0];
        let u = seq![4u8, 3, 2, 5, 1, 0];
        let r = seq![3u8, 2, 4, 1, 0, 5];
        assert(cycled4(cp, 0, 1, 2, 3) =~= u);
        assert(cycled4(cp, 2, 5, 4, 3) =~= r);
        lemma_six_labels(u);
        lemma_six_labels(r);
        lemma_corner_number(u);
        lemma_corner_number(r);
        assert(corner_number(u) == 94);
        assert(corner_number(r) == 70);
    } else if coord == 72 {
        let cp = seq![3u8, 4, 0, 1, 5, 2];
        let u = seq![1u8, 3, 4, 0, 5, 2];
        let r = seq![3u8, 4, 1, 5, 2, 0];
        assert(cycled4(cp, 0, 1, 2, 3) =~= u);
        assert(cycled4(cp, 2, 5, 4, 3) =~= r);
        lemma_six_labels(u);
        lemma_six_labels(r);
        lemma_corner_number(u);
        lemma_corner_number(r);
        assert(corner_number(u) == 30);
        assert(corner_number(r) == 73);
    } else if coord == 73 {
        let cp = seq![3u8, 4, 1, 5, 2, 0];
        let u = seq![5u8, 3, 4, 1, 2, 0];
        let r = seq![3u8, 4, 5, 2, 0, 1];
        assert(cycled4(cp, 0, 1, 2, 3) =~= u);
        assert(cycled4(cp, 2, 5, 4, 3) =~= r);
        lemma_six_labels(u);
        lemma_six_labels(r);
        lemma_corner_number(u);
        lemma_corner_number(r);
        assert(corner_number(u) == 115);
        assert(corner_number(r) == 75);
    } else if coord == 74 {
        let cp = seq![3u8, 4, 2, 0, 1, 5];
        let u = seq![0u8, 3, 4, 2, 1, 5];
        let r = seq![3u8, 4, 0, 1, 5, 2];
        assert(cycled4(cp, 0, 1, 2, 3) =~= u);
        assert(cycled4(cp, 2, 5, 4, 3) =~= r);
        lemma_six_labels(u);
        lemma_six_labels(r);
        lemma_corner_number(u);
        lemma_corner_number(r);
        assert(corner_number(u) == 10);
        assert(corner_number(r) == 72);
    } else if coord == 75 {
        let cp = seq![3u8, 4, 5, 2, 0, 1];
        let u = seq![2u8, 3, 4, 5, 0, 1];
        let r = seq![3u8, 4, 2, 0, 1, 5];
        assert(cycled4(cp, 0, 1, 2, 3) =~= u);
        assert(cycled4(cp, 2, 5, 4, 3) =~= r);
        lemma_six_labels(u);
        lemma_six_labels(r);
        lemma_corner_number(u);
        lemma_corner_number(r);
        assert(corner_number(u) == 50);
        assert(corner_number(r) == 74);
    } else if coord == 76 {
        let cp = seq![3u8, 5, 0, 2, 1, 4];
        let u = seq![2u8, 3, 5, 0, 1, 4];
        let r = seq![3u8, 5, 2, 1, 4, 0];
        assert(cycled4(cp, 0, 1, 2, 3) =~= u);
        assert(cycled4(cp, 2, 5, 4, 3) =~= r);
        lemma_six_labels(u);
        lemma_six_labels(r);
        lemma_corner_number(u);
        lemma_corner_number(r);
        assert(corner_number(u) == 51);
        assert(corner_number(r) == 78);
    } else if coord == 77 {
        let cp = seq![3u8, 5, 1, 4, 0, 2];
        let u = seq![4u8, 3, 5, 1, 0, 2];
        let r = seq![3u8, 5, 4, 0, 2, 1];
        assert(cycled4(cp, 0, 1, 2, 3) =~= u);
        assert(cycled4(cp, 2, 5, 4, 3) =~= r);
        lemma_six_labels(u);
        lemma_six_labels(r);
        lemma_corner_number(u);
        lemma_corner_number(r);
        assert(corner_number(u) == 95);
        assert(corner_number(r) == 79);
    } else if coord == 78 {
        let cp = seq![3u8, 5, 2, 1, 4, 0];
        let u = seq![1u8, 3, 5, 2, 4, 0];
        let r = seq![3u8, 5, 1, 4, 0, 2];
        assert(cycled4(cp, 0, 1, 2, 3) =~= u);
        assert(cycled4(cp, 2, 5, 4, 3) =~= r);
        lemma_six_labels(u);
        lemma_six_labels(r);
        lemma_corner_number(u);
        lemma_corner_number(r);
        assert(corner_number(u) == 31);
        assert(corner_number(r) == 77);
    } else if coord == 79 {
        let cp = seq![3u8, 5, 4, 0, 2, 1];
        let u = seq![0u8, 3, 5, 4, 2, 1];
        let r = seq![3u8, 5, 0, 2, 1, 4];
        assert(cycled4(cp, 0, 1, 2, 3) =~= u);
        assert(cycled4(cp, 2, 5, 4, 3) =~= r);
        lemma_six_labels(u);
        lemma_six_labels(r);
        lemma_corner_number(u);
        lemma_corner_number(r);
        assert(corner_number(u) == 11);
        assert(corner_number(r) == 76);
    }
}

/// U and R take the entries of the table that start with corner 4 to
/// entries of the table.
proof fn lemma_turned_entries_4(coord: nat)
    requires
        80 <= coord < 100,
    ensures
        in_corner_group(cycled4(corner_arrangement(coord), 0, 1, 2, 3)),
        in_corner_group(cycled4(corner_arrangement(coord), 2, 5, 4, 3)),
{
    if coord == 80 {
        let cp = seq![4u8, 0, 1, 3, 5, 2];
        let u = seq![3u8, 4, 0, 1, 5, 2];
        let r = seq![4u8, 0, 3, 5, 2, 1];
        assert(cycled4(cp, 0, 1, 2, 3) =~= u);
        assert(cycled4(cp, 2, 5, 4, 3) =~= r);
        lemma_six_labels(u);
        lemma_six_labels(r);
        lemma_corner_number(u);
        lemma_corner_number(r);
        assert(corner_number(u) == 72);
        assert(corner_number(r) == 82);
    } else if coord == 81 {
        let cp = seq![4u8, 0, 2, 1, 3, 5];
        let u = seq![1u8, 4, 0, 2, 3, 5];
        let r = seq![4u8, 0, 1, 3, 5, 2];
        assert(cycled4(cp, 0, 1, 2, 3) =~= u);
        assert(cycled4(cp, 2, 5, 4, 3) =~= r);
        lemma_six_labels(u);
        lemma_six_labels(r);
        lemma_corner_number(u);
        lemma_corner_number(r);
        assert(corner_number(u) == 32);
        assert(corner_number(r) == 80);
    } else if coord == 82 {
        let cp = seq![4u8, 0, 3, 5, 2, 1];
        let u = seq![5u8, 4, 0, 3, 2, 1];
        let r = seq![4u8, 0, 5, 2, 1, 3];
        assert(cycled4(cp, 0, 1, 2, 3) =~= u);
        assert(cycled4(cp, 2, 5, 4, 3) =~= r);
        lemma_six_labels(u);
        lemma_six_labels(r);
        lemma_corner_number(u);
        lemma_corner_number(r);
        assert(corner_number(u) == 116);
        assert(corner_number(r) == 83);
    } else if coord == 83 {
        let cp = seq![4u8, 0, 5, 2, 1, 3];
        let u = seq![2u8, 4, 0, 5, 1, 3];
        let r = seq![4u8, 0, 2, 1, 3, 5];
        assert(cycled4(cp, 0, 1, 2, 3) =~= u);
        assert(cycled4(cp, 2, 5, 4, 3) =~= r);
        lemma_six_labels(u);
        lemma_six_labels(r);
        lemma_corner_number(u);
        lemma_corner_number(r);
        assert(corner_number(u) == 52);
        assert(corner_number(r) == 81);
    } else if coord == 84 {
        let cp = seq![4u8, 1, 0, 5, 3, 2];
        let u = seq![5u8, 4, 1, 0, 3, 2];
        let r = seq![4u8, 1, 5, 3, 2, 0];
        assert(cycled4(cp, 0, 1, 2, 3) =~= u);
        assert(cycled4(cp, 2, 5, 4, 3) =~= r);
        lemma_six_labels(u);
        lemma_six_labels(r);
        lemma_corner_number(u);
        lemma_corner_number(r);
        assert(corner_number(u) == 117);
        assert(corner_number(r) == 87);
    } else if coord == 85 {
        let cp = seq![4u8, 1, 2, 0, 5, 3];
        let u = seq![0u8, 4, 1, 2, 5, 3];
        let r = seq![4u8, 1, 0, 5, 3, 2];
        assert(cycled4(cp, 0, 1, 2, 3) =~= u);
        assert(cycled4(cp, 2, 5, 4, 3) =~= r);
        lemma_six_labels(u);
        lemma_six_labels(r);
        lemma_corner_number(u);
        lemma_corner_number(r);
        assert(corner_number(u) == 12);
        assert(corner_number(r) == 84);
    } else if coord == 86 {
        let cp = seq![4u8, 1, 3, 2, 0, 5];
        let u = seq![2u8, 4, 1, 3, 0, 5];
        let r = seq![4u8, 1, 2, 0, 5, 3];
        assert(cycled4(cp, 0, 1, 2, 3) =~= u);
        assert(cycled4(cp, 2, 5, 4, 3) =~= r);
        lemma_six_labels(u);
        lemma_six_labels(r);
        lemma_corner_number(u);
        lemma_corner_number(r);
        assert(corner_number(u) == 53);
        assert(corner_number(r) == 85);
    } else if coord == 87 {
        let cp = seq![4u8, 1, 5, 3, 2, 0];
        let u = seq![3u8, 4, 1, 5, 2, 0];
        let r = seq![4u8, 1, 3, 2, 0, 5];
        assert(cycled4(cp, 0, 1, 2, 3) =~= u);
        assert(cycled4(cp, 2, 5, 4, 3) =~= r);
        lemma_six_labels(u);
        lemma_six_labels(r);
        lemma_corner_number(u);
        lemma_corner_number(r);
        assert(corner_number(u) == 73);
        assert(corner_number(r) == 86);
    } else if coord == 88 {
        let cp = seq![4u8, 2, 0, 3, 1, 5];
        let u = seq![3u8, 4, 2, 0, 1, 5];
        let r = seq![4u8, 2, 3, 1, 5, 0];
        assert(cycled4(cp, 0, 1, 2, 3) =~= u);
        assert(cycled4(cp, 2, 5, 4, 3) =~= r);
        lemma_six_labels(u);
        lemma_six_labels(r);
        lemma_corner_number(u);
        lemma_corner_number(r);
        assert(corner_number(u) == 74);
        assert(corner_number(r) == 90);
    } else if coord == 89 {
        let cp = seq![4u8, 2, 1, 5, 0, 3];
        let u = seq![5u8, 4, 2, 1, 0, 3];
        let r = seq![4u8, 2, 5, 0, 3, 1];
        assert(cycled4(cp, 0, 1, 2, 3) =~= u);
        assert(cycled4(cp, 2, 5, 4, 3) =~= r);
        lemma_six_labels(u);
        lemma_six_labels(r);
        lemma_corner_number(u);
        lemma_corner_number(r);
        assert(corner_number(u) == 118);
        assert(corner_number(r) == 91);
    } else if coord == 90 {
        let cp = seq![4u8, 2, 3, 1, 5, 0];
        let u = seq![1u8, 4, 2, 3, 5, 0];
        let r = seq![4u8, 2, 1, 5, 0, 3];
        assert(cycled4(cp, 0, 1, 2, 3) =~= u);
        assert(cycled4(cp, 2, 5, 4, 3) =~= r);
        lemma_six_labels(u);
        lemma_six_labels(r);
        lemma_corner_number(u);
        lemma_corner_number(r);
        assert(corner_number(u) == 33);
        assert(corner_number(r) == 89);
    } else if coord == 91 {
        let cp = seq![4u8, 2, 5, 0, 3, 1];
        let u = seq![0u8, 4, 2, 5, 3, 1];
        let r = seq![4u8, 2, 0, 3, 1, 5];
        assert(cycled4(cp, 0, 1, 2, 3) =~= u);
        assert(cycled4(cp, 2, 5, 4, 3) =~= r);
        lemma_six_labels(u);
        lemma_six_labels(r);
        lemma_corner_number(u);
        lemma_corner_number(r);
        assert(corner_number(u) == 13);
        assert(corner_number(r) == 88);
    } else if coord == 92 {
        let cp = seq![4u8, 3, 0, 2, 5, 1];
        let u = seq![2u8, 4, 3, 0, 5, 1];
        let r = seq![4u8, 3, 2, 5, 1, 0];
        assert(cycled4(cp, 0, 1, 2, 3) =~= u);
        assert(cycled4(cp, 2, 5, 4, 3) =~= r);
        lemma_six_labels(u);
        lemma_six_labels(r);
        lemma_corner_number(u);
        lemma_corner_number(r);
        assert(corner_number(u) == 54);
        assert(corner_number(r) == 94);
    } else if coord == 93 {
        let cp = seq![4u8, 3, 1, 0, 2, 5];
        let u = seq![0u8, 4, 3, 1, 2, 5];
        let r = seq![4u8, 3, 0, 2, 5, 1];
        assert(cycled4(cp, 0, 1, 2, 3) =~= u);
        assert(cycled4(cp, 2, 5, 4, 3) =~= r);
        lemma_six_labels(u);
        lemma_six_labels(r);
        lemma_corner_number(u);
        lemma_corner_number(r);
        assert(corner_number(u) == 14);
        assert(corner_number(r) == 92);
    } else if coord == 94 {
        let cp = seq![4u8, 3, 2, 5, 1, 0];
        let u = seq![5u8, 4, 3, 2, 1, 0];
        let r = seq![4u8, 3, 5, 1, 0, 2];
        assert(cycled4(cp, 0, 1, 2, 3) =~= u);
        assert(cycled4(cp, 2, 5, 4, 3) =~= r);
        lemma_six_labels(u);
        lemma_six_labels(r);
        lemma_corner_number(u);
        lemma_corner_number(r);
        assert(corner_number(u) == 119);
        assert(corner_number(r) == 95);
    } else if coord == 95 {
        let cp = seq![4u8, 3, 5, 1, 0, 2];
        let u = seq![1u8, 4, 3, 5, 0, 2];
        let r = seq![4u8, 3, 1, 0, 2, 5];
        assert(cycled4(cp, 0, 1, 2, 3) =~= u);
        assert(cycled4(cp, 2, 5, 4, 3) =~= r);
        lemma_six_labels(u);
        lemma_six_labels(r);
        lemma_corner_number(u);
        lemma_corner_number(r);
        assert(corner_number(u) == 34);
        assert(corner_number(r) == 93);
    } else if coord == 96 {
        let cp = seq![4u8, 5, 0, 1, 2, 3];
        let u = seq![1u8, 4, 5, 0, 2, 3];
        let r = seq![4u8, 5, 1, 2, 3, 0];
        assert(cycled4(cp, 0, 1, 2, 3) =~= u);
        assert(cycled4(cp, 2, 5, 4, 3) =~= r);
        lemma_six_labels(u);
        lemma_six_labels(r);
        lemma_corner_number(u);
        lemma_corner_number(r);
        assert(corner_number(u) == 35);
        assert(corner_number(r) == 97);
    } else if coord == 97 {
        let cp = seq![4u8, 5, 1, 2, 3, 0];
        let u = seq![2u8, 4, 5, 1, 3, 0];
        let r = seq![4u8, 5, 2, 3, 0, 1];
        assert(cycled4(cp, 0, 1, 2, 3) =~= u);
        assert(cycled4(cp, 2, 5, 4, 3) =~= r);
        lemma_six_labels(u);
        lemma_six_labels(r);
        lemma_corner_number(u);
        lemma_corner_number(r);
        assert(corner_number(u) == 55);
        assert(corner_number(r) == 98);
    } else if coord == 98 {
        let cp = seq![4u8, 5, 2, 3, 0, 1];
        let u = seq![3u8, 4, 5, 2, 0, 1];
        let r = seq![4u8, 5, 3, 0, 1, 2];
        assert(cycled4(cp, 0, 1, 2, 3) =~= u);
        assert(cycled4(cp, 2, 5, 4, 3) =~= r);
        lemma_six_labels(u);
        lemma_six_labels(r);
        lemma_corner_number(u);
        lemma_corner_number(r);
        assert(corner_number(u) == 75);
        assert(corner_number(r) == 99);
    } else if coord == 99 {
        let cp = seq![4u8, 5, 3, 0, 1, 2];
        let u = seq![0u8, 4, 5, 3, 1, 2];
        let r = seq![4u8, 5, 0, 1, 2, 3];
        assert(cycled4(cp, 0, 1, 2, 3) =~= u);
        assert(cycled4(cp, 2, 5, 4, 3) =~= r);
        lemma_six_labels(u);
        lemma_six_labels(r);
        lemma_corner_number(u);
        lemma_corner_number(r);
        assert(corner_number(u) == 15);
        assert(corner_number(r) == 96);
    }
}

/// U and R take the entries of the table that start with corner 5 to
/// entries of the table.
proof fn lemma_turned_entries_5(coord: nat)
    requires
        100 <= coord < 120,
    ensures
        in_corner_group(cycled4(corner_arrangement(coord), 0, 1, 2, 3)),
        in_corner_group(cycled4(corner_arrangement(coord), 2, 5, 4, 3)),
{
    if coord == 100 {
        let cp = seq![5u8, 0, 1, 4, 2, 3];
        let u = seq![4u8, 5, 0, 1, 2, 3];
        let r = seq![5u8, 0, 4, 2, 3, 1];
        assert(cycled4(cp, 0, 1, 2, 3) =~= u);
        assert(cycled4(cp, 2, 5, 4, 3) =~= r);
        lemma_six_labels(u);
        lemma_six_labels(r);
        lemma_corner_number(u);
        lemma_corner_number(r);
        assert(corner_number(u) == 96);
        assert(corner_number(r) == 103);
    } else if coord == 101 {
        let cp = seq![5u8, 0, 2, 3, 1, 4];
        let u = seq![3u8, 5, 0, 2, 1, 4];
        let r = seq![5u8, 0, 3, 1, 4, 2];
        assert(cycled4(cp, 0, 1, 2, 3) =~= u);
        assert(cycled4(cp, 2, 5, 4, 3) =~= r);
        lemma_six_labels(u);
        lemma_six_labels(r);
        lemma_corner_number(u);
        lemma_corner_number(r);
        assert(corner_number(u) == 76);
        assert(corner_number(r) == 102);
    } else if coord == 102 {
        let cp = seq![5u8, 0, 3, 1, 4, 2];
        let u = seq![1u8, 5, 0, 3, 4, 2];
        let r = seq![5u8, 0, 1, 4, 2, 3];
        assert(cycled4(cp, 0, 1, 2, 3) =~= u);
        assert(cycled4(cp, 2, 5, 4, 3) =~= r);
        lemma_six_labels(u);
        lemma_six_labels(r);
        lemma_corner_number(u);
        lemma_corner_number(r);
        assert(corner_number(u) == 36);
        assert(corner_number(r) == 100);
    } else if coord == 103 {
        let cp = seq![5u8, 0, 4, 2, 3, 1];
        let u = seq![2u8, 5, 0, 4, 3, 1];
        let r = seq![5u8, 0, 2, 3, 1, 4];
        assert(cycled4(cp, 0, 1, 2, 3) =~= u);
        assert(cycled4(cp, 2, 5, 4, 3) =~= r);
        lemma_six_labels(u);
        lemma_six_labels(r);
        lemma_corner_number(u);
        lemma_corner_number(r);
        assert(corner_number(u) == 56);
        assert(corner_number(r) == 101);
    } else if coord == 104 {
        let cp = seq![5u8, 1, 0, 2, 4, 3];
        let u = seq![2u8, 5, 1, 0, 4, 3];
        let r = seq![5u8, 1, 2, 4, 3, 0];
        assert(cycled4(cp, 0, 1, 2, 3) =~= u);
        assert(cycled4(cp, 2, 5, 4, 3) =~= r);
        lemma_six_labels(u);
        lemma_six_labels(r);
        lemma_corner_number(u);
        lemma_corner_number(r);
        assert(corner_number(u) == 57);
        assert(corner_number(r) == 105);
    } else if coord == 105 {
        let cp = seq![5u8, 1, 2, 4, 3, 0];
        let u = seq![4u8, 5, 1, 2, 3, 0];
        let r = seq![5u8, 1, 4, 3, 0, 2];
        assert(cycled4(cp, 0, 1, 2, 3) =~= u);
        assert(cycled4(cp, 2, 5, 4, 3) =~= r);
        lemma_six_labels(u);
        lemma_six_labels(r);
        lemma_corner_number(u);
        lemma_corner_number(r);
        assert(corner_number(u) == 97);
        assert(corner_number(r) == 107);
    } else if coord == 106 {
        let cp = seq![5u8, 1, 3, 0, 2, 4];
        let u = seq![0u8, 5, 1, 3, 2, 4];
        let r = seq![5u8, 1, 0, 2, 4, 3];
        assert(cycled4(cp, 0, 1, 2, 3) =~= u);
        assert(cycled4(cp, 2, 5, 4, 3) =~= r);
        lemma_six_labels(u);
        lemma_six_labels(r);
        lemma_corner_number(u);
        lemma_corner_number(r);
        assert(corner_number(u) == 16);
        assert(corner_number(r) == 104);
    } else if coord == 107 {
        let cp = seq![5u8, 1, 4, 3, 0, 2];
        let u = seq![3u8, 5, 1, 4, 0, 2];
        let r = seq![5u8, 1, 3, 0, 2, 4];
        assert(cycled4(cp, 0, 1, 2, 3) =~= u);
        assert(cycled4(cp, 2, 5, 4, 3) =~= r);
        lemma_six_labels(u);
        lemma_six_labels(r);
        lemma_corner_number(u);
        lemma_corner_number(r);
        assert(corner_number(u) == 77);
        assert(corner_number(r) == 106);
    } else if coord == 108 {
        let cp = seq![5u8, 2, 0, 1, 3, 4];
        let u = seq![1u8, 5, 2, 0, 3, 4];
        let r = seq![5u8, 2, 1, 3, 4, 0];
        assert(cycled4(cp, 0, 1, 2, 3) =~= u);
        assert(cycled4(cp, 2, 5, 4, 3) =~= r);
        lemma_six_labels(u);
        lemma_six_labels(r);
        lemma_corner_number(u);
        lemma_corner_number(r);
        assert(corner_number(u) == 37);
        assert(corner_number(r) == 109);
    } else if coord == 109 {
        let cp = seq![5u8, 2, 1, 3, 4, 0];
        let u = seq![3u8, 5, 2, 1, 4, 0];
        let r = seq![5u8, 2, 3, 4, 0, 1];
        assert(cycled4(cp, 0, 1, 2, 3) =~= u);
        assert(cycled4(cp, 2, 5, 4, 3) =~= r);
        lemma_six_labels(u);
        lemma_six_labels(r);
        lemma_corner_number(u);
        lemma_corner_number(r);
        assert(corner_number(u) == 78);
        assert(corner_number(r) == 110);
    } else if coord == 110 {
        let cp = seq![5u8, 2, 3, 4, 0, 1];
        let u = seq![4u8, 5, 2, 3, 0, 1];
        let r = seq![5u8, 2, 4, 0, 1, 3];
        assert(cycled4(cp, 0, 1, 2, 3) =~= u);
        assert(cycled4(cp, 2, 5, 4, 3) =~= r);
        lemma_six_labels(u);
        lemma_six_labels(r);
        lemma_corner_number(u);
        lemma_corner_number(r);
        assert(corner_number(u) == 98);
        assert(corner_number(r) == 111);
    } else if coord == 111 {
        let cp = seq![5u8, 2, 4, 0, 1, 3];
        let u = seq![0u8, 5, 2, 4, 1, 3];
        let r = seq![5u8, 2, 0, 1, 3, 4];
        assert(cycled4(cp, 0, 1, 2, 3) =~= u);
        assert(cycled4(cp, 2, 5, 4, 3) =~= r);
        lemma_six_labels(u);
        lemma_six_labels(r);
        lemma_corner_number(u);
        lemma_corner_number(r);
        assert(corner_number(u) == 17);
        assert(corner_number(r) == 108);
    } else if coord == 112 {
        let cp = seq![5u8, 3, 0, 4, 1, 2];
        let u = seq![4u8, 5, 3, 0, 1, 2];
        let r = seq![5u8, 3, 4, 1, 2, 0];
        assert(cycled4(cp, 0, 1, 2, 3) =~= u);
        assert(cycled4(cp, 2, 5, 4, 3) =~= r);
        lemma_six_labels(u);
        lemma_six_labels(r);
        lemma_corner_number(u);
        lemma_corner_number(r);
        assert(corner_number(u) == 99);
        assert(corner_number(r) == 115);
    } else if coord == 113 {
        let cp = seq![5u8, 3, 1, 2, 0, 4];
        let u = seq![2u8, 5, 3, 1, 0, 4];
        let r = seq![5u8, 3, 2, 0, 4, 1];
        assert(cycled4(cp, 0, 1, 2, 3) =~= u);
        assert(cycled4(cp, 2, 5, 4, 3) =~= r);
        lemma_six_labels(u);
        lemma_six_labels(r);
        lemma_corner_number(u);
        lemma_corner_number(r);
        assert(corner_number(u) == 58);
        assert(corner_number(r) == 114);
    } else if coord == 114 {
        let cp = seq![5u8, 3, 2, 0, 4, 1];
        let u = seq![0u8, 5, 3, 2, 4, 1];
        let r = seq![5u8, 3, 0, 4, 1, 2];
        assert(cycled4(cp, 0, 1, 2, 3) =~= u);
        assert(cycled4(cp, 2, 5, 4, 3) =~= r);
        lemma_six_labels(u);
        lemma_six_labels(r);
        lemma_corner_number(u);
        lemma_corner_number(r);
        assert(corner_number(u) == 18);
        assert(corner_number(r) == 112);
    } else if coord == 115 {
        let cp = seq![5u8, 3, 4, 1, 2, 0];
        let u = seq![1u8, 5, 3, 4, 2, 0];
        let r = seq![5u8, 3, 1, 2, 0, 4];
        assert(cycled4(cp, 0, 1, 2, 3) =~= u);
        assert(cycled4(cp, 2, 5, 4, 3) =~= r);
        lemma_six_labels(u);
        lemma_six_labels(r);
        lemma_corner_number(u);
        lemma_corner_number(r);
        assert(corner_number(u) == 38);
        assert(corner_number(r) == 113);
    } else if coord == 116 {
        let cp = seq![5u8, 4, 0, 3, 2, 1];
        let u = seq![3u8, 5, 4, 0, 2, 1];
        let r = seq![5u8, 4, 3, 2, 1, 0];
        assert(cycled4(cp, 0, 1, 2, 3) =~= u);
        assert(cycled4(cp, 2, 5, 4, 3) =~= r);
        lemma_six_labels(u);
        lemma_six_labels(r);
        lemma_corner_number(u);
        lemma_corner_number(r);
        assert(corner_number(u) == 79);
        assert(corner_number(r) == 119);
    } else if coord == 117 {
        let cp = seq![5u8, 4, 1, 0, 3, 2];
        let u = seq![0u8, 5, 4, 1, 3, 2];
        let r = seq![5u8, 4, 0, 3, 2, 1];
        assert(cycled4(cp, 0, 1, 2, 3) =~= u);
        assert(cycled4(cp, 2, 5, 4, 3) =~= r);
        lemma_six_labels(u);
        lemma_six_labels(r);
        lemma_corner_number(u);
        lemma_corner_number(r);
        assert(corner_number(u) == 19);
        assert(corner_number(r) == 116);
    } else if coord == 118 {
        let cp = seq![5u8, 4, 2, 1, 0, 3];
        let u = seq![1u8, 5, 4, 2, 0, 3];
        let r = seq![5u8, 4, 1, 0, 3, 2];
        assert(cycled4(cp, 0, 1, 2, 3) =~= u);
        assert(cycled4(cp, 2, 5, 4, 3) =~= r);
        lemma_six_labels(u);
        lemma_six_labels(r);
        lemma_corner_number(u);
        lemma_corner_number(r);
        assert(corner_number(u) == 39);
        assert(corner_number(r) == 117);
    } else if coord == 119 {
        let cp = seq![5u8, 4, 3, 2, 1, 0];
        let u = seq![2u8, 5, 4, 3, 1, 0];
        let r = seq![5u8, 4, 2, 1, 0, 3];
        assert(cycled4(cp, 0, 1, 2, 3) =~= u);
        assert(cycled4(cp, 2, 5, 4, 3) =~= r);
        lemma_six_labels(u);
        lemma_six_labels(r);
        lemma_corner_number(u);
        lemma_corner_number(r);
        assert(corner_number(u) == 59);
        assert(corner_number(r) == 118);
    }
}

/// U and R take arrangements of the group to arrangements of the group.
pub proof fn lemma_turns_stay_in_group(cp: Seq<u8>)
    requires
        cp.len() == 6,
        is_permutation(cp),
        in_corner_group(cp),
    ensures
        in_corner_group(cycled4(cp, 0, 1, 2, 3)),
        in_corner_group(cycled4(cp, 2, 5, 4, 3)),
{
    lemma_corner_number(cp);
    let coord = corner_number(cp);
    if coord < 20 {
        lemma_turned_entries_0(coord);
    } else if coord < 40 {
        lemma_turned_entries_1(coord);
    } else if coord < 60 {
        lemma_turned_entries_2(coord);
    } else if coord < 80 {
        lemma_turned_entries_3(coord);
    } else if coord < 100 {
        lemma_turned_entries_4(coord);
    } else {
        lemma_turned_entries_5(coord);
    }
}

} // verus!
