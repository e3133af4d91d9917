//! Arrangements of items drawn from groups whose members cannot be told
//! apart, and their place in lexicographic order.
//!
//! A vector of `n` slots holds, in each slot, the number of the group that
//! the item there belongs to. With `c[g]` items in group `g`, there are
//! `n! / (c[0]! * c[1]! * ...)` such vectors.

use vstd::prelude::*;
use vstd::arithmetic::div_mod::lemma_div_multiples_vanish;
use crate::counting::{
    count_below, lemma_count_all_below, lemma_count_below_bound, lemma_count_below_drop_first,
    lemma_count_below_monotonic, lemma_count_below_step_present, lemma_count_none_below,
};
use crate::factorial::{
    fact, factorial, lemma_fact_monotonic, lemma_fact_positive, lemma_fact_values,
};

verus! {

/// The number of entries of `s` equal to `v`.
pub open spec fn occurrences(s: Seq<u8>, v: int) -> nat {
    (count_below(s, v + 1) - count_below(s, v)) as nat
}

/// For each of `m` groups, the number of entries of `s` that belong to it.
pub open spec fn counts_of(s: Seq<u8>, m: nat) -> Seq<nat> {
    Seq::new(m, |g: int| occurrences(s, g))
}

/// Group sizes as natural numbers.
pub open spec fn as_counts(sizes: Seq<u8>) -> Seq<nat> {
    Seq::new(sizes.len(), |g: int| sizes[g] as nat)
}

/// The sizes of the groups below `g`, added up.
pub open spec fn sum_upto(c: Seq<nat>, g: nat) -> nat
    decreases g,
{
    if g == 0 {
        0
    } else {
        sum_upto(c, (g - 1) as nat) + c[g - 1]
    }
}

/// The number of items in all groups.
pub open spec fn sum(c: Seq<nat>) -> nat {
    sum_upto(c, c.len())
}

/// The product of the factorials of the sizes of the groups from `g` on.
pub open spec fn fact_product_from(c: Seq<nat>, g: nat) -> nat
    decreases c.len() - g,
{
    if g >= c.len() {
        1
    } else {
        fact(c[g as int]) * fact_product_from(c, g + 1)
    }
}

/// The group sizes after one item of group `g` is taken.
pub open spec fn taken(c: Seq<nat>, g: int) -> Seq<nat> {
    c.update(g, (c[g] - 1) as nat)
}

/// The number of arrangements of `n` items with group sizes `c`: the first
/// slot takes an item of any group that has one, and the rest is arranged
/// in the slots that are left.
pub open spec fn arrangements(c: Seq<nat>, n: nat) -> nat
    decreases n, c.len() + 1,
{
    if n == 0 {
        1
    } else {
        starting_below(c, n, c.len())
    }
}

/// The number of arrangements of `n` items with group sizes `c` whose
/// first entry is a group below `g`.
pub open spec fn starting_below(c: Seq<nat>, n: nat, g: nat) -> nat
    decreases n, g,
{
    if n == 0 || g == 0 || g > c.len() {
        0
    } else {
        starting_below(c, n, (g - 1) as nat) + if c[g - 1] > 0 {
            arrangements(taken(c, g - 1), (n - 1) as nat)
        } else {
            0
        }
    }
}

/// The number of arrangements with group sizes `c`.
pub open spec fn multinomial(c: Seq<nat>) -> nat {
    arrangements(c, sum(c))
}

/// `s` holds group numbers below the number of groups, and of each group as
/// many as its size says.
pub open spec fn is_arrangement(s: Seq<u8>, c: Seq<nat>) -> bool {
    &&& forall|i: int| 0 <= i < s.len() ==> (#[trigger] s[i] as int) < c.len()
    &&& forall|g: int| 0 <= g < c.len() ==> #[trigger] occurrences(s, g) == c[g]
}

/// The rank of `s` among the arrangements with its group sizes, in
/// lexicographic order: each slot contributes the number of arrangements of
/// what stands from there on that start with a smaller group.
pub open spec fn multiset_rank(s: Seq<u8>, m: nat) -> nat
    decreases s.len(),
{
    if s.len() == 0 {
        0
    } else {
        starting_below(counts_of(s, m), s.len(), s[0] as nat) + multiset_rank(s.drop_first(), m)
    }
}

/// The first group, from `g` on, such that more than `r` arrangements start
/// with a group up to it; the last group if there is none.
pub open spec fn first_group(r: nat, c: Seq<nat>, n: nat, g: nat) -> nat
    decreases c.len() - g,
{
    if g + 1 >= c.len() {
        g
    } else if r < starting_below(c, n, g + 1) {
        g
    } else {
        first_group(r, c, n, g + 1)
    }
}

/// The arrangement of `n` items with group sizes `c` that has rank `r`.
pub open spec fn multiset_unrank(r: nat, c: Seq<nat>, n: nat) -> Seq<u8>
    decreases n,
{
    if n == 0 {
        Seq::empty()
    } else {
        let g = first_group(r, c, n, 0);
        seq![g as u8] + multiset_unrank(
            (r - starting_below(c, n, g)) as nat,
            taken(c, g as int),
            (n - 1) as nat,
        )
    }
}

/// Taking the first entry off takes one occurrence of its value off.
pub proof fn lemma_occurrences_drop_first(s: Seq<u8>, v: int)
    requires
        s.len() > 0,
    ensures
        occurrences(s, v) == (if s[0] as int == v {
            1nat
        } else {
            0nat
        }) + occurrences(s.drop_first(), v),
{
    lemma_count_below_drop_first(s, v);
    lemma_count_below_drop_first(s, v + 1);
    lemma_count_below_monotonic(s, v, v + 1);
    lemma_count_below_monotonic(s.drop_first(), v, v + 1);
}

/// Taking the first entry off takes one item out of its group.
pub proof fn lemma_counts_drop_first(s: Seq<u8>, m: nat)
    requires
        s.len() > 0,
        (s[0] as nat) < m,
    ensures
        counts_of(s, m)[s[0] as int] > 0,
        counts_of(s.drop_first(), m) == taken(counts_of(s, m), s[0] as int),
{
    let c = counts_of(s, m);
    let t = counts_of(s.drop_first(), m);
    assert forall|g: int| 0 <= g < m implies t[g] == taken(c, s[0] as int)[g] by {
        lemma_occurrences_drop_first(s, g);
    }
    lemma_occurrences_drop_first(s, s[0] as int);
    assert(t =~= taken(c, s[0] as int));
}

/// Taking an item out of a group takes one off every sum that the group
/// is part of.
pub proof fn lemma_sum_upto_taken(c: Seq<nat>, g: int, u: nat)
    requires
        0 <= g < c.len(),
        c[g] > 0,
        u <= c.len(),
    ensures
        sum_upto(taken(c, g), u) == sum_upto(c, u) - if g < u {
            1int
        } else {
            0int
        },
    decreases u,
{
    if u > 0 {
        lemma_sum_upto_taken(c, g, (u - 1) as nat);
    }
}

/// Sums over more groups are not smaller.
pub proof fn lemma_sum_upto_monotonic(c: Seq<nat>, u: nat, w: nat)
    requires
        u <= w,
    ensures
        sum_upto(c, u) <= sum_upto(c, w),
    decreases w,
{
    if u < w {
        lemma_sum_upto_monotonic(c, u, (w - 1) as nat);
    }
}

/// The occurrences of the groups below `u` add up to the number of entries
/// below `u`.
pub proof fn lemma_sum_upto_counts(s: Seq<u8>, m: nat, u: nat)
    requires
        u <= m,
    ensures
        sum_upto(counts_of(s, m), u) == count_below(s, u as int),
    decreases u,
{
    if u == 0 {
        assert forall|i: int| 0 <= i < s.len() implies (#[trigger] s[i] as int) >= 0 by {}
        lemma_count_none_below(s, 0);
    } else {
        lemma_sum_upto_counts(s, m, (u - 1) as nat);
        lemma_count_below_monotonic(s, u - 1, u as int);
    }
}

/// The group sizes of a vector of group numbers add up to its length.
pub proof fn lemma_sum_counts(s: Seq<u8>, m: nat)
    requires
        forall|i: int| 0 <= i < s.len() ==> (#[trigger] s[i] as int) < m,
    ensures
        sum(counts_of(s, m)) == s.len(),
{
    lemma_sum_upto_counts(s, m, m);
    lemma_count_all_below(s, m as int);
}

/// A product of factorials is positive.
pub proof fn lemma_fact_product_positive(c: Seq<nat>, g: nat)
    ensures
        fact_product_from(c, g) >= 1,
    decreases c.len() - g,
{
    if g < c.len() {
        lemma_fact_product_positive(c, g + 1);
        lemma_fact_positive(c[g as int]);
        assert(fact(c[g as int]) * fact_product_from(c, g + 1) >= 1) by (nonlinear_arith)
            requires
                fact(c[g as int]) >= 1,
                fact_product_from(c, g + 1) >= 1,
        ;
    }
}

/// Taking an item out of group `g` divides the product of factorials by
/// the size of the group.
pub proof fn lemma_fact_product_taken(c: Seq<nat>, g: int, from: nat)
    requires
        0 <= g < c.len(),
        c[g] > 0,
    ensures
        fact_product_from(c, from) == fact_product_from(taken(c, g), from) * if from <= g {
            c[g]
        } else {
            1
        },
    decreases c.len() - from,
{
    let t = taken(c, g);
    if from < c.len() {
        lemma_fact_product_taken(c, g, from + 1);
        let rest = fact_product_from(t, from + 1);
        if from == g {
            assert(fact(c[g]) == c[g] * fact(t[g]));
            assert(fact(c[g]) * rest == (fact(t[g]) * rest) * c[g]) by (nonlinear_arith)
                requires
                    fact(c[g]) == c[g] * fact(t[g]),
            ;
        } else if from < g {
            let f = fact(c[from as int]);
            assert(f * (rest * c[g]) == (f * rest) * c[g]) by (nonlinear_arith);
        }
    }
}

/// Where every group is empty, the product of factorials is 1.
proof fn lemma_fact_product_empty(c: Seq<nat>, from: nat)
    requires
        forall|g: int| 0 <= g < c.len() ==> c[g] == 0,
    ensures
        fact_product_from(c, from) == 1,
    decreases c.len() - from,
{
    if from < c.len() {
        lemma_fact_product_empty(c, from + 1);
        assert(c[from as int] == 0);
        assert(fact(0) == 1);
    }
}

proof fn lemma_sum_zero(c: Seq<nat>, u: nat)
    requires
        u <= c.len(),
        sum_upto(c, u) == 0,
    ensures
        forall|g: int| 0 <= g < u ==> c[g] == 0,
    decreases u,
{
    if u > 0 {
        lemma_sum_zero(c, (u - 1) as nat);
    }
}

/// The arrangements that start below `u`, times the product of the
/// factorials of the group sizes, are `(n - 1)!` for each item in a group
/// below `u`.
proof fn lemma_starting_below_closed_form(c: Seq<nat>, n: nat, u: nat)
    requires
        n >= 1,
        sum(c) == n,
        u <= c.len(),
    ensures
        starting_below(c, n, u) * fact_product_from(c, 0) == fact((n - 1) as nat) * sum_upto(c, u),
    decreases n, u,
{
    let p = fact_product_from(c, 0);
    let f = fact((n - 1) as nat);
    if u == 0 {
        assert(0 * p == f * 0) by (nonlinear_arith);
    } else {
        let g = (u - 1) as int;
        lemma_starting_below_closed_form(c, n, (u - 1) as nat);
        let before = starting_below(c, n, (u - 1) as nat);
        let sb = sum_upto(c, (u - 1) as nat);
        if c[g] > 0 {
            let t = taken(c, g);
            lemma_sum_upto_taken(c, g, c.len());
            lemma_arrangements_closed_form(t, (n - 1) as nat);
            lemma_fact_product_taken(c, g, 0);
            let a = arrangements(t, (n - 1) as nat);
            let pt = fact_product_from(t, 0);
            assert((before + a) * p == f * (sb + c[g])) by (nonlinear_arith)
                requires
                    before * p == f * sb,
                    a * pt == f,
                    p == pt * c[g],
            ;
        } else {
            assert((before + 0) * p == f * (sb + 0)) by (nonlinear_arith)
                requires
                    before * p == f * sb,
            ;
        }
    }
}

/// The number of arrangements, times the product of the factorials of the
/// group sizes, is the factorial of the number of items.
pub proof fn lemma_arrangements_closed_form(c: Seq<nat>, n: nat)
    requires
        sum(c) == n,
    ensures
        arrangements(c, n) * fact_product_from(c, 0) == fact(n),
    decreases n, c.len() + 1,
{
    if n == 0 {
        lemma_sum_zero(c, c.len());
        lemma_fact_product_empty(c, 0);
    } else {
        lemma_starting_below_closed_form(c, n, c.len());
        let f = fact((n - 1) as nat);
        assert(f * n == n * f) by (nonlinear_arith);
    }
}

/// There is at least one arrangement, and at most `n!`.
pub proof fn lemma_arrangements_bounds(c: Seq<nat>, n: nat)
    requires
        sum(c) == n,
    ensures
        1 <= arrangements(c, n) <= fact(n),
{
    lemma_arrangements_closed_form(c, n);
    lemma_fact_product_positive(c, 0);
    lemma_fact_positive(n);
    let a = arrangements(c, n);
    let p = fact_product_from(c, 0);
    assert(1 <= a <= fact(n)) by (nonlinear_arith)
        requires
            a * p == fact(n),
            p >= 1,
            fact(n) >= 1,
            a >= 0,
    ;
}

/// Of the arrangements of `n` items, the share that starts with group `g`
/// is the share of the items that belong to `g`.
pub proof fn lemma_arrangements_ratio(c: Seq<nat>, n: nat, g: int)
    requires
        n >= 1,
        sum(c) == n,
        0 <= g < c.len(),
        c[g] > 0,
    ensures
        n * arrangements(taken(c, g), (n - 1) as nat) == c[g] * arrangements(c, n),
{
    let t = taken(c, g);
    lemma_sum_upto_taken(c, g, c.len());
    lemma_arrangements_closed_form(c, n);
    lemma_arrangements_closed_form(t, (n - 1) as nat);
    lemma_fact_product_taken(c, g, 0);
    lemma_fact_product_positive(t, 0);
    let a = arrangements(c, n);
    let at = arrangements(t, (n - 1) as nat);
    let p = fact_product_from(c, 0);
    let pt = fact_product_from(t, 0);
    let f = fact((n - 1) as nat);
    assert(n * at == c[g] * a) by (nonlinear_arith)
        requires
            a * p == n * f,
            at * pt == f,
            p == pt * c[g],
            pt >= 1,
    ;
}

/// Of the arrangements of `n` items, the share that starts below group `u`
/// is the share of the items that belong to a group below `u`.
pub proof fn lemma_starting_below_ratio(c: Seq<nat>, n: nat, u: nat)
    requires
        n >= 1,
        sum(c) == n,
        u <= c.len(),
    ensures
        n * starting_below(c, n, u) == sum_upto(c, u) * arrangements(c, n),
    decreases u,
{
    let a = arrangements(c, n);
    if u == 0 {
        assert(n * 0 == 0 * a) by (nonlinear_arith);
    } else {
        let g = (u - 1) as int;
        lemma_starting_below_ratio(c, n, (u - 1) as nat);
        let before = starting_below(c, n, (u - 1) as nat);
        let sb = sum_upto(c, (u - 1) as nat);
        if c[g] > 0 {
            lemma_arrangements_ratio(c, n, g);
            let at = arrangements(taken(c, g), (n - 1) as nat);
            assert(n * (before + at) == (sb + c[g]) * a) by (nonlinear_arith)
                requires
                    n * before == sb * a,
                    n * at == c[g] * a,
            ;
        } else {
            assert(n * (before + 0) == (sb + 0) * a) by (nonlinear_arith)
                requires
                    n * before == sb * a,
            ;
        }
    }
}

/// No fewer arrangements start below a higher group.
pub proof fn lemma_starting_below_monotonic(c: Seq<nat>, n: nat, u: nat, w: nat)
    requires
        u <= w <= c.len(),
    ensures
        starting_below(c, n, u) <= starting_below(c, n, w),
    decreases w,
{
    if u < w && n > 0 {
        lemma_starting_below_monotonic(c, n, u, (w - 1) as nat);
    }
}

/// Where fewer than all arrangements come before rank `r`, the first group
/// found from `g0` on is the one whose arrangements hold rank `r`.
proof fn lemma_first_group(r: nat, c: Seq<nat>, n: nat, g0: nat)
    requires
        n >= 1,
        g0 < c.len(),
        starting_below(c, n, g0) <= r < arrangements(c, n),
    ensures
        g0 <= first_group(r, c, n, g0) < c.len(),
        starting_below(c, n, first_group(r, c, n, g0)) <= r < starting_below(
            c,
            n,
            first_group(r, c, n, g0) + 1,
        ),
        c[first_group(r, c, n, g0) as int] > 0,
    decreases c.len() - g0,
{
    if g0 + 1 >= c.len() {
    } else if r < starting_below(c, n, g0 + 1) {
    } else {
        lemma_first_group(r, c, n, g0 + 1);
    }
}

/// The group whose arrangements hold rank `r` is the one found.
proof fn lemma_first_group_unique(r: nat, c: Seq<nat>, n: nat, g0: nat, v: nat)
    requires
        n >= 1,
        g0 <= v < c.len(),
        starting_below(c, n, v) <= r < starting_below(c, n, v + 1),
    ensures
        first_group(r, c, n, g0) == v,
    decreases c.len() - g0,
{
    if g0 < v {
        lemma_starting_below_monotonic(c, n, g0 + 1, v);
        lemma_first_group_unique(r, c, n, g0 + 1, v);
    }
}

/// Unranking yields an arrangement with the group sizes given, and ranking
/// it gives the rank back.
pub proof fn lemma_multiset_rank_of_unrank(r: nat, c: Seq<nat>, n: nat)
    requires
        c.len() <= 256,
        sum(c) == n,
        r < arrangements(c, n),
    ensures
        multiset_unrank(r, c, n).len() == n,
        is_arrangement(multiset_unrank(r, c, n), c),
        counts_of(multiset_unrank(r, c, n), c.len()) == c,
        multiset_rank(multiset_unrank(r, c, n), c.len()) == r,
    decreases n,
{
    let m = c.len();
    let q = multiset_unrank(r, c, n);
    if n == 0 {
        lemma_sum_zero(c, m);
        assert forall|g: int| 0 <= g < m implies #[trigger] occurrences(q, g) == c[g] by {}
        assert(counts_of(q, m) =~= c);
    } else {
        if m == 0 {
            assert(sum_upto(c, 0) == 0);
        }
        lemma_first_group(r, c, n, 0);
        let g = first_group(r, c, n, 0);
        let t = taken(c, g as int);
        let r1 = (r - starting_below(c, n, g)) as nat;
        lemma_sum_upto_taken(c, g as int, m);
        lemma_multiset_rank_of_unrank(r1, t, (n - 1) as nat);
        let rest = multiset_unrank(r1, t, (n - 1) as nat);
        assert(q == seq![g as u8] + rest);
        assert(q.drop_first() =~= rest);
        assert(q[0] == g as u8);
        lemma_counts_drop_first(q, m);
        let cq = counts_of(q, m);
        assert forall|h: int| 0 <= h < m implies cq[h] == c[h] by {
            assert(taken(cq, g as int)[h] == t[h]);
        }
        assert(cq =~= c);
        assert forall|i: int| 0 <= i < q.len() implies (#[trigger] q[i] as int) < m by {
            if i > 0 {
                assert(q[i] == rest[i - 1]);
            }
        }
        assert forall|h: int| 0 <= h < m implies #[trigger] occurrences(q, h) == c[h] by {
            assert(cq[h] == occurrences(q, h));
        }
    }
}

/// Ranking a vector of group numbers and unranking the rank with the
/// vector's own group sizes gives the vector back.
pub proof fn lemma_multiset_unrank_of_rank(s: Seq<u8>, m: nat)
    requires
        forall|i: int| 0 <= i < s.len() ==> (#[trigger] s[i] as int) < m,
    ensures
        multiset_rank(s, m) < arrangements(counts_of(s, m), s.len()),
        multiset_unrank(multiset_rank(s, m), counts_of(s, m), s.len()) == s,
    decreases s.len(),
{
    let n = s.len();
    let c = counts_of(s, m);
    if n == 0 {
        assert(s =~= Seq::<u8>::empty());
    } else {
        let v = s[0] as nat;
        let rest = s.drop_first();
        assert forall|i: int| 0 <= i < rest.len() implies (#[trigger] rest[i] as int) < m by {
            assert(rest[i] == s[i + 1]);
        }
        lemma_counts_drop_first(s, m);
        lemma_multiset_unrank_of_rank(rest, m);
        let r = multiset_rank(s, m);
        lemma_starting_below_monotonic(c, n, v + 1, m);
        lemma_first_group_unique(r, c, n, 0, v);
        assert(s =~= seq![v as u8] + rest);
    }
}

/// Two arrangements with the same group sizes and the same rank are the
/// same.
pub proof fn lemma_multiset_rank_injective(s: Seq<u8>, t: Seq<u8>, c: Seq<nat>)
    requires
        is_arrangement(s, c),
        is_arrangement(t, c),
        s.len() == t.len(),
        multiset_rank(s, c.len()) == multiset_rank(t, c.len()),
    ensures
        s == t,
{
    lemma_multiset_unrank_of_rank(s, c.len());
    lemma_multiset_unrank_of_rank(t, c.len());
    assert(counts_of(s, c.len()) =~= c);
    assert(counts_of(t, c.len()) =~= c);
}

/// The number of arrangements of `n` items that start with group `g`, from
/// the number `a` of all arrangements and the size of the group.
fn share(a: u64, count: u8, n: usize, Ghost(c): Ghost<Seq<nat>>, Ghost(g): Ghost<int>) -> (w: u64)
    requires
        1 <= n <= 20,
        sum(c) == n,
        0 <= g < c.len(),
        c[g] == count,
        a == arrangements(c, n as nat),
    ensures
        w == if count > 0 {
            arrangements(taken(c, g), (n - 1) as nat)
        } else {
            0
        },
        w <= a,
{
    proof {
        lemma_arrangements_bounds(c, n as nat);
        lemma_fact_values();
        lemma_fact_monotonic(n as nat, 20);
        lemma_sum_upto_monotonic(c, (g + 1) as nat, c.len());
        assert(sum_upto(c, (g + 1) as nat) >= c[g]);
        assert(a * count <= a * 20) by (nonlinear_arith)
            requires
                count <= 20,
                a >= 0,
        ;
        if count > 0 {
            lemma_arrangements_ratio(c, n as nat, g);
            let at = arrangements(taken(c, g), (n - 1) as nat);
            lemma_div_multiples_vanish(at as int, n as int);
            assert(at <= a) by (nonlinear_arith)
                requires
                    n * at == count * a,
                    count <= n,
                    n >= 1,
                    a >= 0,
                    at >= 0,
            ;
        } else {
            assert(a * 0 == 0) by (nonlinear_arith);
        }
    }
    ((a as u128 * count as u128) / (n as u128)) as u64
}

/// The number of arrangements with the group sizes given, for up to 20
/// items.
pub fn arrangement_count<const M: usize>(sizes: &[u8; M]) -> (a: u64)
    requires
        sum(as_counts(sizes@)) <= 20,
    ensures
        a == multinomial(as_counts(sizes@)),
        1 <= a <= fact(sum(as_counts(sizes@))),
{
    let ghost c = as_counts(sizes@);
    let mut n: usize = 0;
    let mut g: usize = 0;
    while g < M
        invariant
            g <= M,
            c == as_counts(sizes@),
            n == sum_upto(c, g as nat),
            sum(c) <= 20,
        decreases M - g,
    {
        proof {
            lemma_sum_upto_monotonic(c, (g + 1) as nat, M as nat);
        }
        n = n + sizes[g] as usize;
        g = g + 1;
    }
    let mut a = factorial(n);
    proof {
        lemma_arrangements_closed_form(c, n as nat);
        lemma_arrangements_bounds(c, n as nat);
    }
    g = 0;
    while g < M
        invariant
            g <= M,
            c == as_counts(sizes@),
            n == sum(c),
            n <= 20,
            a == arrangements(c, n as nat) * fact_product_from(c, g as nat),
        decreases M - g,
    {
        proof {
            lemma_sum_upto_monotonic(c, (g + 1) as nat, M as nat);
            assert(sum_upto(c, (g + 1) as nat) >= c[g as int]);
            lemma_fact_positive(c[g as int]);
            let f = fact(c[g as int]);
            let rest = arrangements(c, n as nat) * fact_product_from(c, (g + 1) as nat);
            assert(a == f * rest) by (nonlinear_arith)
                requires
                    a == arrangements(c, n as nat) * (f * fact_product_from(c, (g + 1) as nat)),
                    rest == arrangements(c, n as nat) * fact_product_from(c, (g + 1) as nat),
            ;
            lemma_div_multiples_vanish(rest as int, f as int);
        }
        a = a / factorial(sizes[g] as usize);
        g = g + 1;
    }
    assert(a == arrangements(c, n as nat) * 1);
    a
}

/// Ranks an arrangement of items from groups of the sizes given: its
/// place, counted from 0, among all arrangements with those group sizes in
/// lexicographic order.
pub fn encode_multiset<const N: usize, const M: usize>(v: &[u8; N], sizes: &[u8; M]) -> (r: u64)
    requires
        N <= 20,
        is_arrangement(v@, as_counts(sizes@)),
    ensures
        r == multiset_rank(v@, M as nat),
        r < multinomial(as_counts(sizes@)),
{
    let ghost c0 = as_counts(sizes@);
    proof {
        assert(counts_of(v@, M as nat) =~= c0);
        lemma_sum_counts(v@, M as nat);
        lemma_multiset_unrank_of_rank(v@, M as nat);
        lemma_arrangements_bounds(c0, N as nat);
        lemma_fact_values();
        lemma_fact_monotonic(N as nat, 20);
        assert(v@.skip(0) =~= v@);
    }
    let mut counts: [u8; M] = *sizes;
    let mut a = arrangement_count(sizes);
    let mut r: u64 = 0;
    let mut i: usize = 0;
    while i < N
        invariant
            i <= N <= 20,
            forall|j: int| 0 <= j < N ==> (#[trigger] v@[j] as int) < M,
            as_counts(counts@) == counts_of(v@.skip(i as int), M as nat),
            a == arrangements(as_counts(counts@), (N - i) as nat),
            r + multiset_rank(v@.skip(i as int), M as nat) == multiset_rank(v@, M as nat),
            multiset_rank(v@, M as nat) < 0x4000_0000_0000_0000,
        decreases N - i,
    {
        let n = N - i;
        let x = v[i] as usize;
        let ghost c = as_counts(counts@);
        let ghost tail = v@.skip(i as int);
        proof {
            assert(tail[0] == v@[i as int]);
            assert forall|j: int| 0 <= j < tail.len() implies (#[trigger] tail[j] as int)
                < M by {
                assert(tail[j] == v@[i + j]);
            }
            lemma_sum_counts(tail, M as nat);
            lemma_counts_drop_first(tail, M as nat);
            assert(tail.drop_first() =~= v@.skip(i as int + 1));
        }
        let mut below_count: u64 = 0;
        let mut g: usize = 0;
        while g < x
            invariant
                g <= x < M,
                c == as_counts(counts@),
                below_count == sum_upto(c, g as nat),
                sum(c) == n,
                n <= 20,
            decreases x - g,
        {
            proof {
                lemma_sum_upto_monotonic(c, (g + 1) as nat, M as nat);
            }
            below_count = below_count + counts[g] as u64;
            g = g + 1;
        }
        proof {
            lemma_sum_upto_monotonic(c, x as nat, M as nat);
            lemma_starting_below_ratio(c, n as nat, x as nat);
            lemma_div_multiples_vanish(starting_below(c, n as nat, x as nat) as int, n as int);
            lemma_arrangements_bounds(c, n as nat);
            lemma_fact_values();
            lemma_fact_monotonic(n as nat, 20);
            assert(a * below_count <= a * 20) by (nonlinear_arith)
                requires
                    below_count <= 20,
                    a >= 0,
            ;
            assert(a * below_count == below_count * a) by (nonlinear_arith);
        }
        let below = ((a as u128 * below_count as u128) / (n as u128)) as u64;
        let next = share(a, counts[x], n, Ghost(c), Ghost(x as int));
        r = r + below;
        a = next;
        counts[x] = counts[x] - 1;
        i = i + 1;
        proof {
            assert(as_counts(counts@) =~= taken(c, x as int));
        }
    }
    proof {
        assert(v@.skip(N as int) =~= Seq::<u8>::empty());
    }
    r
}

/// The arrangement of `N` items from groups of the sizes given that has
/// rank `coord`.
pub fn decode_multiset<const N: usize, const M: usize>(coord: u64, sizes: &[u8; M]) -> (v: [u8; N])
    requires
        N <= 20,
        M <= 256,
        sum(as_counts(sizes@)) == N,
        coord < multinomial(as_counts(sizes@)),
    ensures
        v@ == multiset_unrank(coord as nat, as_counts(sizes@), N as nat),
        is_arrangement(v@, as_counts(sizes@)),
        multiset_rank(v@, M as nat) == coord,
{
    let ghost c0 = as_counts(sizes@);
    let mut v = [0u8; N];
    let mut counts: [u8; M] = *sizes;
    let mut a = arrangement_count(sizes);
    let mut r: u64 = coord;
    let mut i: usize = 0;
    proof {
        assert(v@.take(0) + multiset_unrank(r as nat, c0, N as nat) =~= multiset_unrank(
            coord as nat,
            c0,
            N as nat,
        ));
    }
    while i < N
        invariant
            i <= N <= 20,
            M <= 256,
            c0 == as_counts(sizes@),
            sum(as_counts(counts@)) == N - i,
            a == arrangements(as_counts(counts@), (N - i) as nat),
            r < a,
            v@.take(i as int) + multiset_unrank(r as nat, as_counts(counts@), (N - i) as nat)
                == multiset_unrank(coord as nat, c0, N as nat),
        decreases N - i,
    {
        let n = N - i;
        let ghost c = as_counts(counts@);
        let ghost r0 = r as nat;
        proof {
            if M == 0 {
                assert(sum_upto(c, 0) == 0);
            }
            lemma_first_group(r0, c, n as nat, 0);
        }
        let mut g: usize = 0;
        let mut w = share(a, counts[0], n, Ghost(c), Ghost(0));
        while g + 1 < M && r >= w
            invariant
                g < M,
                n == N - i,
                1 <= n <= 20,
                c == as_counts(counts@),
                sum(c) == n,
                a == arrangements(c, n as nat),
                r + starting_below(c, n as nat, g as nat) == r0,
                first_group(r0, c, n as nat, g as nat) == first_group(r0, c, n as nat, 0),
                w == if c[g as int] > 0 {
                    arrangements(taken(c, g as int), (n - 1) as nat)
                } else {
                    0
                },
            decreases M - g,
        {
            r = r - w;
            g = g + 1;
            w = share(a, counts[g], n, Ghost(c), Ghost(g as int));
        }
        proof {
            assert(g == first_group(r0, c, n as nat, 0));
            lemma_sum_upto_taken(c, g as int, M as nat);
        }
        let ghost before = v@.take(i as int);
        let ghost rest = multiset_unrank(r as nat, taken(c, g as int), (n - 1) as nat);
        v[i] = g as u8;
        a = w;
        counts[g] = counts[g] - 1;
        i = i + 1;
        proof {
            assert(as_counts(counts@) =~= taken(c, g as int));
            assert(v@.take(i as int) + rest =~= before + (seq![g as u8] + rest));
        }
    }
    proof {
        assert(v@.take(N as int) =~= v@);
        assert(multiset_unrank(r as nat, as_counts(counts@), 0) =~= Seq::<u8>::empty());
        assert(v@ + Seq::<u8>::empty() =~= v@);
        lemma_multiset_rank_of_unrank(coord as nat, c0, N as nat);
    }
    v
}

/// A vector in which as many entries lie below every bound as in an
/// arrangement is an arrangement of the same groups.
pub proof fn lemma_rearranged_arrangement(s: Seq<u8>, t: Seq<u8>, c: Seq<nat>)
    requires
        is_arrangement(s, c),
        s.len() == t.len(),
        forall|x: int| #[trigger] count_below(t, x) == count_below(s, x),
    ensures
        is_arrangement(t, c),
{
    assert forall|g: int| 0 <= g < c.len() implies #[trigger] occurrences(t, g) == c[g] by {
        assert(occurrences(s, g) == c[g]);
    }
    assert forall|i: int| 0 <= i < t.len() implies (#[trigger] t[i] as int) < c.len() by {
        if t[i] as int >= c.len() {
            lemma_count_below_step_present(t, i);
            lemma_count_all_below(s, c.len() as int);
            lemma_count_below_monotonic(s, c.len() as int, t[i] as int);
            lemma_count_below_bound(s, t[i] as int + 1);
        }
    }
}

} // verus!
