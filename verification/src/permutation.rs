//! Permutations of the labels `0..n` and their place in lexicographic order.

use vstd::prelude::*;
use vstd::arithmetic::div_mod::{
    lemma_div_multiples_vanish, lemma_fundamental_div_mod, lemma_fundamental_div_mod_converse,
};
use vstd::arithmetic::mul::{lemma_mul_inequality, lemma_mul_is_commutative};
use crate::counting::{
    count_below, distinct, lemma_count_below_bound, lemma_count_below_drop_first,
    lemma_count_below_remove, lemma_count_below_sorted, lemma_count_below_step_absent,
    lemma_count_below_step_present, lemma_distinct_bounded_len, strictly_increasing,
};
use crate::factorial::{
    fact, factorial, lemma_fact_monotonic, lemma_fact_positive, lemma_fact_values,
};

verus! {

/// Every entry is a label below the length, and no label occurs twice.
pub open spec fn is_permutation(s: Seq<u8>) -> bool {
    &&& forall|i: int| 0 <= i < s.len() ==> (#[trigger] s[i] as int) < s.len()
    &&& distinct(s)
}

/// The labels `0..n` in order.
pub open spec fn identity_perm(n: nat) -> Seq<u8> {
    Seq::new(n, |i: int| i as u8)
}

/// The rank of `s` among the arrangements of its entries in lexicographic
/// order: each slot contributes the number of later entries that are smaller
/// (its Lehmer digit), weighted by the factorial of the number of later
/// slots.
pub open spec fn lehmer_rank(s: Seq<u8>) -> nat
    decreases s.len(),
{
    if s.len() == 0 {
        0
    } else {
        count_below(s.drop_first(), s[0] as int) * fact((s.len() - 1) as nat) + lehmer_rank(
            s.drop_first(),
        )
    }
}

/// The arrangement of `pool` with rank `r`: the leading digit of `r` picks
/// the first entry out of the pool, the rest of `r` arranges what is left.
/// (A digit past the end of the pool, which no rank below the pool's
/// factorial has, picks the last entry.)
pub open spec fn unrank_from_pool(r: nat, pool: Seq<u8>) -> Seq<u8>
    decreases pool.len(),
{
    if pool.len() == 0 {
        Seq::empty()
    } else {
        let f = fact((pool.len() - 1) as nat);
        let d = if 0 <= r / f < pool.len() {
            (r / f) as int
        } else {
            pool.len() - 1
        };
        seq![pool[d]] + unrank_from_pool(r % f, pool.remove(d))
    }
}

/// The permutation of `0..n` with rank `r`.
pub open spec fn lehmer_unrank(r: nat, n: nat) -> Seq<u8> {
    unrank_from_pool(r, identity_perm(n))
}

/// A rank is below the factorial of the length, whatever the entries.
pub proof fn lemma_rank_bound(s: Seq<u8>)
    ensures
        lehmer_rank(s) < fact(s.len()),
    decreases s.len(),
{
    if s.len() > 0 {
        let rest = s.drop_first();
        let f = fact(rest.len());
        let d = count_below(rest, s[0] as int);
        lemma_rank_bound(rest);
        lemma_count_below_bound(rest, s[0] as int);
        assert(d * f + f <= s.len() * f) by (nonlinear_arith)
            requires
                d + 1 <= s.len(),
                f >= 0,
        ;
    }
}

/// The leading digit and the remainder of a rank below `n * f`.
proof fn lemma_split_rank(r: nat, f: nat, n: nat)
    requires
        f > 0,
        r < n * f,
    ensures
        r / f < n,
        r % f < f,
        r == (r / f) * f + r % f,
{
    lemma_fundamental_div_mod(r as int, f as int);
    lemma_mul_is_commutative(f as int, (r / f) as int);
    if r / f >= n {
        lemma_mul_inequality(n as int, (r / f) as int, f as int);
    }
}

proof fn lemma_remove_increasing(pool: Seq<u8>, d: int)
    requires
        strictly_increasing(pool),
        0 <= d < pool.len(),
    ensures
        strictly_increasing(pool.remove(d)),
        forall|i: int| 0 <= i < pool.len() - 1 ==> #[trigger] pool.remove(d)[i] != pool[d],
{
    let t = pool.remove(d);
    assert forall|i: int, j: int| 0 <= i < j < t.len() implies t[i] < t[j] by {
        let a = if i < d { i } else { i + 1 };
        let b = if j < d { j } else { j + 1 };
        assert(t[i] == pool[a] && t[j] == pool[b]);
    }
    assert forall|i: int| 0 <= i < pool.len() - 1 implies #[trigger] t[i] != pool[d] by {
        let a = if i < d { i } else { i + 1 };
        assert(t[i] == pool[a]);
    }
}

/// Unranking from an increasing pool arranges exactly the pool's entries,
/// and ranking the result gives the rank back.
pub proof fn lemma_unrank_from_pool(r: nat, pool: Seq<u8>)
    requires
        strictly_increasing(pool),
        r < fact(pool.len()),
    ensures
        unrank_from_pool(r, pool).len() == pool.len(),
        forall|x: int| #[trigger] count_below(unrank_from_pool(r, pool), x) == count_below(pool, x),
        forall|i: int|
            0 <= i < pool.len() ==> pool.contains(#[trigger] unrank_from_pool(r, pool)[i]),
        distinct(unrank_from_pool(r, pool)),
        lehmer_rank(unrank_from_pool(r, pool)) == r,
    decreases pool.len(),
{
    let q = unrank_from_pool(r, pool);
    if pool.len() > 0 {
        let n = pool.len();
        let f = fact((n - 1) as nat);
        lemma_fact_positive((n - 1) as nat);
        lemma_split_rank(r, f, n);
        let d = (r / f) as int;
        let rest_pool = pool.remove(d);
        let rest = unrank_from_pool(r % f, rest_pool);
        lemma_remove_increasing(pool, d);
        lemma_unrank_from_pool(r % f, rest_pool);
        assert(q == seq![pool[d]] + rest);
        assert(q.drop_first() =~= rest);
        assert forall|x: int| #[trigger] count_below(q, x) == count_below(pool, x) by {
            lemma_count_below_drop_first(q, x);
            lemma_count_below_remove(pool, d, x);
        }
        assert forall|i: int| 0 <= i < n implies pool.contains(#[trigger] q[i]) by {
            if i == 0 {
                assert(pool[d] == q[0]);
            } else {
                assert(q[i] == rest[i - 1]);
                assert(rest_pool.contains(rest[i - 1]));
                let j = choose|j: int| 0 <= j < rest_pool.len() && rest_pool[j] == rest[i - 1];
                let a = if j < d { j } else { j + 1 };
                assert(pool[a] == rest_pool[j]);
            }
        }
        assert forall|i: int, j: int| 0 <= i < j < q.len() implies q[i] != q[j] by {
            assert(q[j] == rest[j - 1]);
            if i == 0 {
                assert(rest_pool.contains(rest[j - 1]));
                let k = choose|k: int| 0 <= k < rest_pool.len() && rest_pool[k] == rest[j - 1];
                assert(rest_pool[k] != pool[d]);
            } else {
                assert(q[i] == rest[i - 1]);
            }
        }
        lemma_count_below_remove(pool, d, pool[d] as int);
        lemma_count_below_sorted(pool, d);
        assert(count_below(rest, pool[d] as int) == d);
    }
}

/// Ranking, then unranking from the pool with the same entries, gives the
/// sequence back.
pub proof fn lemma_unrank_rank_pool(p: Seq<u8>, pool: Seq<u8>)
    requires
        strictly_increasing(pool),
        p.len() == pool.len(),
        forall|x: int| #[trigger] count_below(p, x) == count_below(pool, x),
    ensures
        unrank_from_pool(lehmer_rank(p), pool) == p,
    decreases p.len(),
{
    if p.len() == 0 {
        assert(p =~= Seq::<u8>::empty());
    } else {
        let n = p.len();
        let rest = p.drop_first();
        let f = fact((n - 1) as nat);
        let x0 = p[0] as int;
        let c0 = count_below(rest, x0);
        let r1 = lehmer_rank(rest);
        let r = lehmer_rank(p);
        lemma_fact_positive((n - 1) as nat);
        lemma_rank_bound(rest);
        lemma_count_below_bound(rest, x0);
        lemma_mul_is_commutative(f as int, c0 as int);
        lemma_fundamental_div_mod_converse(r as int, f as int, c0 as int, r1 as int);
        assert(r / f == c0 && r % f == r1);
        // the first entry sits in the pool at the place the digit names
        lemma_count_below_drop_first(p, x0);
        lemma_count_below_step_present(p, 0);
        assert(count_below(pool, x0 + 1) > count_below(pool, x0));
        if forall|i: int| 0 <= i < pool.len() ==> (#[trigger] pool[i] as int) != x0 {
            lemma_count_below_step_absent(pool, x0);
        }
        let k = choose|k: int| 0 <= k < pool.len() && pool[k] as int == x0;
        lemma_count_below_sorted(pool, k);
        assert(k == c0);
        let rest_pool = pool.remove(k);
        lemma_remove_increasing(pool, k);
        assert forall|x: int| #[trigger] count_below(rest, x) == count_below(rest_pool, x) by {
            lemma_count_below_drop_first(p, x);
            lemma_count_below_remove(pool, k, x);
        }
        lemma_unrank_rank_pool(rest, rest_pool);
        assert(p =~= seq![pool[k]] + rest);
    }
}

/// The labels in order are increasing, and a permutation.
pub proof fn lemma_identity_perm(n: nat)
    requires
        n <= 256,
    ensures
        strictly_increasing(identity_perm(n)),
        is_permutation(identity_perm(n)),
        identity_perm(n).len() == n,
{
}

/// A permutation of `0..n` holds the label `n - 1`.
proof fn lemma_permutation_has_top(p: Seq<u8>)
    requires
        is_permutation(p),
        p.len() > 0,
    ensures
        exists|k: int| 0 <= k < p.len() && p[k] as int == p.len() - 1,
{
    if !(exists|k: int| 0 <= k < p.len() && p[k] as int == p.len() - 1) {
        assert forall|i: int| 0 <= i < p.len() implies (#[trigger] p[i] as int) < p.len() - 1 by {
            assert(!(0 <= i < p.len() && p[i] as int == p.len() - 1));
        }
        lemma_distinct_bounded_len(p, (p.len() - 1) as nat);
    }
}

/// In a permutation of `0..n`, exactly `x` labels lie below `x`.
pub proof fn lemma_permutation_count_below(p: Seq<u8>, x: int)
    requires
        is_permutation(p),
    ensures
        count_below(p, x) == if x <= 0 {
            0
        } else if x >= p.len() {
            p.len() as int
        } else {
            x
        },
    decreases p.len(),
{
    if p.len() == 0 {
    } else {
        lemma_permutation_has_top(p);
        let k = choose|k: int| 0 <= k < p.len() && p[k] as int == p.len() - 1;
        let t = p.remove(k);
        assert forall|i: int| 0 <= i < t.len() implies (#[trigger] t[i] as int) < t.len() by {
            let a = if i < k { i } else { i + 1 };
            assert(t[i] == p[a]);
            assert(p[a] != p[k]);
        }
        assert forall|i: int, j: int| 0 <= i < j < t.len() implies t[i] != t[j] by {
            let a = if i < k { i } else { i + 1 };
            let b = if j < k { j } else { j + 1 };
            assert(t[i] == p[a] && t[j] == p[b]);
        }
        lemma_permutation_count_below(t, x);
        lemma_count_below_remove(p, k, x);
    }
}

/// Unranking yields a permutation, and ranking it gives the rank back.
pub proof fn lemma_rank_of_unrank(r: nat, n: nat)
    requires
        n <= 256,
        r < fact(n),
    ensures
        is_permutation(lehmer_unrank(r, n)),
        lehmer_unrank(r, n).len() == n,
        lehmer_rank(lehmer_unrank(r, n)) == r,
{
    let pool = identity_perm(n);
    lemma_identity_perm(n);
    lemma_unrank_from_pool(r, pool);
    let q = lehmer_unrank(r, n);
    assert forall|i: int| 0 <= i < q.len() implies (#[trigger] q[i] as int) < q.len() by {
        assert(pool.contains(q[i]));
    }
}

/// Ranking a permutation and unranking the rank gives the permutation back.
pub proof fn lemma_unrank_of_rank(p: Seq<u8>)
    requires
        is_permutation(p),
    ensures
        lehmer_rank(p) < fact(p.len()),
        lehmer_unrank(lehmer_rank(p), p.len()) == p,
{
    let n = p.len();
    lemma_distinct_bounded_len(p, 256);
    let pool = identity_perm(n);
    lemma_identity_perm(n);
    lemma_rank_bound(p);
    assert forall|x: int| #[trigger] count_below(p, x) == count_below(pool, x) by {
        lemma_permutation_count_below(p, x);
        lemma_permutation_count_below(pool, x);
    }
    lemma_unrank_rank_pool(p, pool);
}

/// Two permutations of the same labels with the same rank are the same.
pub proof fn lemma_rank_injective(p: Seq<u8>, q: Seq<u8>)
    requires
        is_permutation(p),
        is_permutation(q),
        p.len() == q.len(),
        lehmer_rank(p) == lehmer_rank(q),
    ensures
        p == q,
{
    lemma_unrank_of_rank(p);
    lemma_unrank_of_rank(q);
}

/// Counts the entries of `perm` after slot `i` that are smaller than the
/// entry in slot `i`: the slot's Lehmer digit.
pub fn lehmer_digit<const N: usize>(perm: &[u8; N], i: usize) -> (c: u64)
    requires
        i < N,
    ensures
        c == count_below(perm@.skip(i as int + 1), perm@[i as int] as int),
        c <= N - 1 - i,
{
    let mut c: u64 = 0;
    let mut j: usize = i + 1;
    assert(perm@.subrange(i as int + 1, j as int) =~= Seq::<u8>::empty());
    while j < N
        invariant
            i < j <= N,
            c == count_below(perm@.subrange(i as int + 1, j as int), perm@[i as int] as int),
            c <= j - i - 1,
        decreases N - j,
    {
        assert(perm@.subrange(i as int + 1, j as int + 1).drop_last() =~= perm@.subrange(
            i as int + 1,
            j as int,
        ));
        if perm[j] < perm[i] {
            c = c + 1;
        }
        j = j + 1;
    }
    assert(perm@.subrange(i as int + 1, N as int) =~= perm@.skip(i as int + 1));
    c
}

/// Ranks a permutation of `0..N`: its place, counted from 0, among all
/// permutations of those labels in lexicographic order.
///
/// The digits are taken in from the left, each one after the number so far
/// has been multiplied by the number of labels that were still to place.
pub fn encode_permutation<const N: usize>(perm: &[u8; N]) -> (r: u64)
    requires
        N <= 20,
        is_permutation(perm@),
    ensures
        r == lehmer_rank(perm@),
        r < fact(N as nat),
{
    let mut r: u64 = 0;
    let mut i: usize = 0;
    proof {
        assert(perm@.skip(0) =~= perm@);
        lemma_rank_bound(perm@);
        lemma_fact_values();
        lemma_fact_monotonic(N as nat, 20);
        assert(0 * fact(N as nat) == 0) by (nonlinear_arith);
    }
    while i < N
        invariant
            i <= N <= 20,
            r * fact((N - i) as nat) + lehmer_rank(perm@.skip(i as int)) == lehmer_rank(perm@),
            lehmer_rank(perm@) < 0x4000_0000_0000_0000,
        decreases N - i,
    {
        let c = lehmer_digit(perm, i);
        proof {
            assert(perm@.skip(i as int).drop_first() =~= perm@.skip(i as int + 1));
            let left = (N - i) as nat;
            let f1 = fact((N - i - 1) as nat);
            let f = fact(left);
            let rest = lehmer_rank(perm@.skip(i as int + 1));
            lemma_fact_positive((N - i - 1) as nat);
            assert(f == left * f1);
            assert(r * left <= r * f && (r * left + c) * f1 + rest == r * f + (c * f1 + rest))
                by (nonlinear_arith)
                requires
                    f == left * f1,
                    f1 >= 1,
                    left >= 1,
                    r >= 0,
            ;
        }
        r = r * ((N - i) as u64) + c;
        i = i + 1;
    }
    proof {
        assert(perm@.skip(N as int) =~= Seq::<u8>::empty());
        assert(r * 1 == r) by (nonlinear_arith);
    }
    r
}

/// The labels `0..N` in order.
pub fn identity<const N: usize>() -> (perm: [u8; N])
    requires
        N <= 256,
    ensures
        perm@ == identity_perm(N as nat),
{
    let mut perm = [0u8; N];
    let mut i: usize = 0;
    while i < N
        invariant
            i <= N <= 256,
            forall|k: int| 0 <= k < i ==> perm@[k] == k as u8,
        decreases N - i,
    {
        perm[i] = i as u8;
        i = i + 1;
    }
    assert(perm@ =~= identity_perm(N as nat));
    perm
}

/// Takes the entry in slot `d` out of the first `len` slots of `pool`, and
/// moves the entries after it up by one.
fn take_out<const N: usize>(pool: &mut [u8; N], len: usize, d: usize) -> (label: u8)
    requires
        d < len <= N,
    ensures
        label == old(pool)@[d as int],
        final(pool)@.take(len - 1) == old(pool)@.take(len as int).remove(d as int),
{
    let label = pool[d];
    let mut j: usize = d;
    while j + 1 < len
        invariant
            d <= j < len <= N,
            forall|k: int| 0 <= k < d ==> pool@[k] == old(pool)@[k],
            forall|k: int| d <= k < j ==> pool@[k] == old(pool)@[k + 1],
            forall|k: int| j <= k < N ==> pool@[k] == old(pool)@[k],
        decreases len - j,
    {
        pool[j] = pool[j + 1];
        j = j + 1;
    }
    assert(pool@.take(len - 1) =~= old(pool)@.take(len as int).remove(d as int));
    label
}

/// The permutation of `0..N` with rank `coord`, by successive division:
/// each digit names the label to take out of the ordered pool of labels
/// that are left.
pub fn decode_permutation<const N: usize>(coord: u64) -> (perm: [u8; N])
    requires
        N <= 20,
        coord < fact(N as nat),
    ensures
        perm@ == lehmer_unrank(coord as nat, N as nat),
        is_permutation(perm@),
        lehmer_rank(perm@) == coord,
{
    let mut perm = [0u8; N];
    let mut pool: [u8; N] = identity();
    let mut f: u64 = factorial(N);
    let mut r: u64 = coord;
    let mut i: usize = 0;
    proof {
        lemma_identity_perm(N as nat);
        assert(pool@.take(N as int) =~= identity_perm(N as nat));
        assert(perm@.take(0) + unrank_from_pool(r as nat, pool@.take(N as int))
            =~= lehmer_unrank(coord as nat, N as nat));
    }
    while i < N
        invariant
            i <= N <= 20,
            strictly_increasing(pool@.take(N - i)),
            f == fact((N - i) as nat),
            r < f,
            perm@.take(i as int) + unrank_from_pool(r as nat, pool@.take(N - i)) == lehmer_unrank(
                coord as nat,
                N as nat,
            ),
        decreases N - i,
    {
        let left = N - i;
        proof {
            let f1 = fact((left - 1) as nat);
            lemma_fact_positive((left - 1) as nat);
            assert(f == left * f1);
            lemma_div_multiples_vanish(f1 as int, left as int);
            lemma_split_rank(r as nat, f1, left as nat);
            lemma_remove_increasing(pool@.take(left as int), (r / (f / (left as u64))) as int);
        }
        f = f / (left as u64);
        let d = (r / f) as usize;
        let ghost before = perm@.take(i as int);
        let ghost rest = unrank_from_pool(
            (r % f) as nat,
            pool@.take(left as int).remove(d as int),
        );
        proof {
            assert(pool@.take(left as int)[d as int] == pool@[d as int]);
        }
        let label = take_out(&mut pool, left, d);
        perm[i] = label;
        r = r % f;
        i = i + 1;
        assert(perm@.take(i as int) + rest =~= before + (seq![label] + rest));
    }
    proof {
        assert(perm@.take(N as int) =~= perm@);
        assert(pool@.take(0) =~= Seq::<u8>::empty());
        assert(perm@ + Seq::<u8>::empty() =~= perm@);
        lemma_rank_of_unrank(coord as nat, N as nat);
    }
    perm
}

} // verus!
