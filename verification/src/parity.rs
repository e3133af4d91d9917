//! The sign of a permutation, and ranking when the sign is known from
//! elsewhere: an even permutation of `n` labels has a place in `0..n!/2`.

use vstd::prelude::*;
use crate::counting::{
    count_below, distinct, lemma_count_below_drop_first, lemma_count_below_update,
};
use crate::factorial::{fact, lemma_fact_monotonic, lemma_fact_values};
use crate::permutation::{
    decode_permutation, encode_permutation, is_permutation, lehmer_digit, lehmer_rank,
    lehmer_unrank, lemma_rank_of_unrank, lemma_unrank_of_rank,
};

verus! {

/// The number of pairs of slots whose entries stand in the wrong order.
pub open spec fn inversions(s: Seq<u8>) -> nat
    decreases s.len(),
{
    if s.len() == 0 {
        0
    } else {
        count_below(s.drop_first(), s[0] as int) + inversions(s.drop_first())
    }
}

/// The number of inversions is even.
pub open spec fn even(s: Seq<u8>) -> bool {
    inversions(s) % 2 == 0
}

/// `s` with its last two entries exchanged.
pub open spec fn swap_last_two(s: Seq<u8>) -> Seq<u8> {
    if s.len() < 2 {
        s
    } else {
        s.update(s.len() - 2, s[s.len() - 1]).update(s.len() - 1, s[s.len() - 2])
    }
}

/// The rank of `s` with its lowest digit dropped. A permutation and the one
/// with the last two entries exchanged share this number, and exactly one of
/// the two is even.
pub open spec fn even_rank(s: Seq<u8>) -> nat {
    lehmer_rank(s) / 2
}

/// The even permutation of `0..n` whose rank, halved, is `e`.
pub open spec fn even_unrank(e: nat, n: nat) -> Seq<u8> {
    let p = lehmer_unrank(2 * e, n);
    if even(p) {
        p
    } else {
        swap_last_two(p)
    }
}

/// From 2 on, factorials are even.
pub proof fn lemma_fact_even(n: nat)
    requires
        n >= 2,
    ensures
        fact(n) % 2 == 0,
    decreases n,
{
    if n == 2 {
        lemma_fact_values();
    } else {
        lemma_fact_even((n - 1) as nat);
        let h = fact((n - 1) as nat) / 2;
        assert(n * fact((n - 1) as nat) == 2 * (n * h)) by (nonlinear_arith)
            requires
                fact((n - 1) as nat) == 2 * h,
        ;
    }
}

proof fn lemma_count_below_swap_last_two(s: Seq<u8>, x: int)
    ensures
        count_below(swap_last_two(s), x) == count_below(s, x),
{
    if s.len() >= 2 {
        let t = swap_last_two(s);
        assert(t.drop_last().drop_last() =~= s.drop_last().drop_last());
        assert(t.drop_last().last() == s.last());
        assert(t.last() == s.drop_last().last());
        reveal_with_fuel(count_below, 3);
    }
}

/// Exchanging the last two entries twice changes nothing.
pub proof fn lemma_swap_last_two_twice(s: Seq<u8>)
    ensures
        swap_last_two(swap_last_two(s)) == s,
{
    assert(swap_last_two(swap_last_two(s)) =~= s);
}

/// A permutation with its last two entries exchanged is a permutation.
pub proof fn lemma_swap_last_two_permutation(s: Seq<u8>)
    requires
        is_permutation(s),
    ensures
        is_permutation(swap_last_two(s)),
{
    if s.len() >= 2 {
        let t = swap_last_two(s);
        let n = s.len() as int;
        assert forall|i: int| 0 <= i < t.len() implies (#[trigger] t[i] as int) < t.len() by {
            let a = if i == n - 2 { n - 1 } else if i == n - 1 { n - 2 } else { i };
            assert(t[i] == s[a]);
        }
        assert forall|i: int, j: int| 0 <= i < j < t.len() implies t[i] != t[j] by {
            let a = if i == n - 2 { n - 1 } else if i == n - 1 { n - 2 } else { i };
            let b = if j == n - 2 { n - 1 } else if j == n - 1 { n - 2 } else { j };
            assert(t[i] == s[a] && t[j] == s[b]);
            if a < b {
                assert(s[a] != s[b]);
            } else {
                assert(s[b] != s[a]);
            }
        }
    }
}

/// Exchanging the last two entries changes the rank by one, within the same
/// pair of neighbours, and changes the sign.
pub proof fn lemma_swap_last_two(s: Seq<u8>)
    requires
        distinct(s),
        s.len() >= 2,
    ensures
        lehmer_rank(swap_last_two(s)) / 2 == lehmer_rank(s) / 2,
        lehmer_rank(swap_last_two(s)) % 2 != lehmer_rank(s) % 2,
        even(swap_last_two(s)) != even(s),
    decreases s.len(),
{
    let t = swap_last_two(s);
    let rest = s.drop_first();
    if s.len() == 2 {
        assert(rest =~= seq![s[1]]);
        assert(t.drop_first() =~= seq![s[0]]);
        assert(rest.drop_first() =~= Seq::<u8>::empty());
        assert(t.drop_first().drop_first() =~= Seq::<u8>::empty());
        assert(rest.drop_last() =~= Seq::<u8>::empty());
        assert(t.drop_first().drop_last() =~= Seq::<u8>::empty());
        assert(s[0] != s[1]);
        reveal_with_fuel(lehmer_rank, 3);
        reveal_with_fuel(inversions, 3);
        reveal_with_fuel(count_below, 2);
        reveal_with_fuel(fact, 2);
    } else {
        assert(t.drop_first() =~= swap_last_two(rest));
        assert(t[0] == s[0]);
        assert forall|i: int, j: int| 0 <= i < j < rest.len() implies rest[i] != rest[j] by {
            assert(rest[i] == s[i + 1] && rest[j] == s[j + 1]);
        }
        lemma_swap_last_two(rest);
        lemma_count_below_swap_last_two(rest, s[0] as int);
        let d = count_below(rest, s[0] as int);
        let f = fact((s.len() - 1) as nat);
        lemma_fact_even((s.len() - 1) as nat);
        let h = f / 2;
        assert(d * f == 2 * (d * h)) by (nonlinear_arith)
            requires
                f == 2 * h,
        ;
    }
}

/// `s` with the entries of slots `i` and `j` exchanged.
pub open spec fn exchanged(s: Seq<u8>, i: int, j: int) -> Seq<u8> {
    s.update(i, s[j]).update(j, s[i])
}

/// Exchanging two neighbours that differ changes the number of inversions
/// by one.
pub proof fn lemma_neighbours_exchanged(s: Seq<u8>, i: int)
    requires
        0 <= i,
        i + 1 < s.len(),
        s[i] != s[i + 1],
    ensures
        even(exchanged(s, i, i + 1)) != even(s),
    decreases i,
{
    let t = exchanged(s, i, i + 1);
    let rest = s.drop_first();
    if i == 0 {
        let tail = rest.drop_first();
        assert(t.drop_first().drop_first() =~= tail);
        assert(t[0] == s[1] && t.drop_first()[0] == s[0]);
        assert(rest[0] == s[1]);
        lemma_count_below_drop_first(rest, s[0] as int);
        lemma_count_below_drop_first(t.drop_first(), s[1] as int);
        reveal_with_fuel(inversions, 2);
    } else {
        assert(t.drop_first() =~= exchanged(rest, i - 1, i));
        assert(t[0] == s[0]);
        assert(rest[i - 1] == s[i] && rest[i] == s[i + 1]);
        lemma_neighbours_exchanged(rest, i - 1);
        lemma_count_below_update(rest, i - 1, rest[i], s[0] as int);
        lemma_count_below_update(rest.update(i - 1, rest[i]), i, rest[i - 1], s[0] as int);
    }
}

/// Exchanging the entries of two slots of a vector whose entries are all
/// different changes its sign.
pub proof fn lemma_exchanged_changes_sign(s: Seq<u8>, i: int, j: int)
    requires
        distinct(s),
        0 <= i < j < s.len(),
    ensures
        even(exchanged(s, i, j)) != even(s),
        distinct(exchanged(s, i, j)),
    decreases j - i,
{
    let t = exchanged(s, i, j);
    assert forall|a: int, b: int| 0 <= a < b < t.len() implies t[a] != t[b] by {
        let x = if a == i { j } else if a == j { i } else { a };
        let y = if b == i { j } else if b == j { i } else { b };
        assert(t[a] == s[x] && t[b] == s[y]);
        if x < y {
            assert(s[x] != s[y]);
        } else {
            assert(s[y] != s[x]);
        }
    }
    if j == i + 1 {
        lemma_neighbours_exchanged(s, i);
    } else {
        // exchange the neighbours i and i + 1, then i + 1 and j, then the
        // neighbours again
        let s1 = exchanged(s, i, i + 1);
        lemma_exchanged_changes_sign(s, i, i + 1);
        let s2 = exchanged(s1, i + 1, j);
        lemma_exchanged_changes_sign(s1, i + 1, j);
        let s3 = exchanged(s2, i, i + 1);
        lemma_exchanged_changes_sign(s2, i, i + 1);
        assert(s3 =~= t);
    }
}

/// The labels in order have no inversions.
pub proof fn lemma_identity_even(n: nat)
    requires
        n <= 256,
    ensures
        inversions(crate::permutation::identity_perm(n)) == 0,
        even(crate::permutation::identity_perm(n)),
        lehmer_rank(crate::permutation::identity_perm(n)) == 0,
{
    lemma_increasing_no_inversions(crate::permutation::identity_perm(n));
}

/// An increasing vector has no inversions, and rank 0.
pub proof fn lemma_increasing_no_inversions(s: Seq<u8>)
    requires
        crate::counting::strictly_increasing(s),
    ensures
        inversions(s) == 0,
        lehmer_rank(s) == 0,
    decreases s.len(),
{
    if s.len() > 0 {
        let rest = s.drop_first();
        assert forall|i: int, j: int| 0 <= i < j < rest.len() implies rest[i] < rest[j] by {
            assert(rest[i] == s[i + 1] && rest[j] == s[j + 1]);
        }
        lemma_increasing_no_inversions(rest);
        assert forall|i: int| 0 <= i < rest.len() implies (#[trigger] rest[i] as int)
            >= s[0] as int by {
            assert(rest[i] == s[i + 1]);
        }
        crate::counting::lemma_count_none_below(rest, s[0] as int);
        assert(0 * fact((s.len() - 1) as nat) == 0) by (nonlinear_arith);
    }
}

/// Unranking in the even half yields an even permutation whose halved rank
/// is the number given.
pub proof fn lemma_even_rank_of_unrank(e: nat, n: nat)
    requires
        2 <= n <= 256,
        e < fact(n) / 2,
    ensures
        is_permutation(even_unrank(e, n)),
        even_unrank(e, n).len() == n,
        even(even_unrank(e, n)),
        even_rank(even_unrank(e, n)) == e,
{
    lemma_fact_even(n);
    lemma_rank_of_unrank(2 * e, n);
    let p = lehmer_unrank(2 * e, n);
    lemma_swap_last_two(p);
    lemma_swap_last_two_permutation(p);
}

/// Ranking in the even half and unranking gives an even permutation back
/// unchanged, and an odd one with its last two entries exchanged.
pub proof fn lemma_even_unrank_of_rank(p: Seq<u8>)
    requires
        is_permutation(p),
        p.len() >= 2,
    ensures
        even_rank(p) < fact(p.len()) / 2,
        even_unrank(even_rank(p), p.len()) == if even(p) {
            p
        } else {
            swap_last_two(p)
        },
{
    let n = p.len();
    let r = lehmer_rank(p);
    let t = swap_last_two(p);
    lemma_fact_even(n);
    lemma_unrank_of_rank(p);
    lemma_swap_last_two(p);
    lemma_swap_last_two_permutation(p);
    lemma_swap_last_two_twice(p);
    lemma_unrank_of_rank(t);
    if r % 2 == 0 {
        assert(2 * (r / 2) == r);
    } else {
        assert(2 * (r / 2) == lehmer_rank(t));
    }
}

/// Two even permutations of the same labels with the same halved rank are
/// the same.
pub proof fn lemma_even_rank_injective(p: Seq<u8>, q: Seq<u8>)
    requires
        is_permutation(p),
        is_permutation(q),
        even(p),
        even(q),
        p.len() == q.len(),
        p.len() >= 2,
        even_rank(p) == even_rank(q),
    ensures
        p == q,
{
    lemma_even_unrank_of_rank(p);
    lemma_even_unrank_of_rank(q);
}

/// The sign of a permutation: 0 if it is even, 1 if it is odd.
pub fn parity<const N: usize>(perm: &[u8; N]) -> (p: u8)
    requires
        N <= 20,
    ensures
        p == inversions(perm@) % 2,
        p == 0 <==> even(perm@),
{
    let mut total: u64 = 0;
    let mut i: usize = 0;
    assert(perm@.skip(0) =~= perm@);
    while i < N
        invariant
            i <= N <= 20,
            total + inversions(perm@.skip(i as int)) == inversions(perm@),
            total <= 20 * i,
        decreases N - i,
    {
        let c = lehmer_digit(perm, i);
        assert(perm@.skip(i as int).drop_first() =~= perm@.skip(i as int + 1));
        total = total + c;
        i = i + 1;
    }
    assert(perm@.skip(N as int) =~= Seq::<u8>::empty());
    (total % 2) as u8
}

/// Whether a permutation is even.
pub fn is_even<const N: usize>(perm: &[u8; N]) -> (b: bool)
    requires
        N <= 20,
    ensures
        b == even(perm@),
{
    parity(perm) == 0
}

/// Ranks a permutation of `0..N` in a space half the size: the rank with its
/// lowest digit dropped. The sign of the permutation, which the digit would
/// tell, has to be known from elsewhere.
pub fn encode_even_permutation<const N: usize>(perm: &[u8; N]) -> (r: u64)
    requires
        2 <= N <= 20,
        is_permutation(perm@),
    ensures
        r == even_rank(perm@),
        r < fact(N as nat) / 2,
{
    proof {
        lemma_fact_even(N as nat);
    }
    encode_permutation(perm) / 2
}

/// The even permutation of `0..N` whose halved rank is `coord`.
pub fn decode_even_permutation<const N: usize>(coord: u64) -> (perm: [u8; N])
    requires
        2 <= N <= 20,
        coord < fact(N as nat) / 2,
    ensures
        perm@ == even_unrank(coord as nat, N as nat),
        is_permutation(perm@),
        even(perm@),
        even_rank(perm@) == coord,
{
    proof {
        lemma_fact_even(N as nat);
        lemma_fact_values();
        lemma_fact_monotonic(N as nat, 20);
        lemma_even_rank_of_unrank(coord as nat, N as nat);
    }
    let mut perm = decode_permutation::<N>(2 * coord);
    if !is_even(&perm) {
        let a = perm[N - 2];
        perm[N - 2] = perm[N - 1];
        perm[N - 1] = a;
    }
    perm
}

} // verus!
