//! The elementary motions of a piece vector: cycles of slots, with or
//! without a twist of what passes through them.
//!
//! A cycle over the slots `a, b, c, d` carries the entry of `a` to `b`, that
//! of `b` to `c`, that of `c` to `d` and that of `d` to `a`. A twisted cycle
//! also adds a fixed amount, modulo `k`, to the entry that arrives in each
//! slot.

use vstd::prelude::*;
use vstd::arithmetic::div_mod::{
    lemma_add_mod_noop, lemma_add_mod_noop_right, lemma_fundamental_div_mod, lemma_mod_bound,
    lemma_mod_multiples_basic, lemma_small_mod,
};
use crate::counting::{count_below, distinct, lemma_count_below_update};
use crate::orientation::{entries_below, is_orientation, total};
use crate::parity::{even, exchanged, lemma_exchanged_changes_sign};
use crate::permutation::is_permutation;

verus! {

/// `s` with the entries of slots `a` and `b` exchanged.
pub open spec fn swapped(s: Seq<u8>, a: int, b: int) -> Seq<u8> {
    s.update(a, s[b]).update(b, s[a])
}

/// `s` after a cycle over four slots.
pub open spec fn cycled4(s: Seq<u8>, a: int, b: int, c: int, d: int) -> Seq<u8> {
    s.update(a, s[d]).update(b, s[a]).update(c, s[b]).update(d, s[c])
}

/// `s` after a cycle over five slots.
pub open spec fn cycled5(s: Seq<u8>, a: int, b: int, c: int, d: int, e: int) -> Seq<u8> {
    s.update(a, s[e]).update(b, s[a]).update(c, s[b]).update(d, s[c]).update(e, s[d])
}

/// `x` turned by `t` in `Z_k`.
#[verifier::opaque]
pub open spec fn turned(x: u8, t: u8, k: u8) -> u8 {
    ((x as int + t as int) % (k as int)) as u8
}

/// `s` after a cycle over four slots in which the entry arriving in slot
/// `a` is turned by `ta`, and so on.
pub open spec fn twisted4(
    s: Seq<u8>,
    a: int,
    b: int,
    c: int,
    d: int,
    ta: u8,
    tb: u8,
    tc: u8,
    td: u8,
    k: u8,
) -> Seq<u8> {
    s.update(a, turned(s[d], ta, k)).update(b, turned(s[a], tb, k)).update(
        c,
        turned(s[b], tc, k),
    ).update(d, turned(s[c], td, k))
}

/// `s` after a cycle over five slots in which the entry arriving in slot
/// `a` is turned by `ta`, and so on.
pub open spec fn twisted5(
    s: Seq<u8>,
    a: int,
    b: int,
    c: int,
    d: int,
    e: int,
    ta: u8,
    tb: u8,
    tc: u8,
    td: u8,
    te: u8,
    k: u8,
) -> Seq<u8> {
    s.update(a, turned(s[e], ta, k)).update(b, turned(s[a], tb, k)).update(
        c,
        turned(s[b], tc, k),
    ).update(d, turned(s[c], td, k)).update(e, turned(s[d], te, k))
}

/// The slots are in range and no two are the same.
pub open spec fn slots4(n: int, a: int, b: int, c: int, d: int) -> bool {
    &&& 0 <= a < n && 0 <= b < n && 0 <= c < n && 0 <= d < n
    &&& a != b && a != c && a != d && b != c && b != d && c != d
}

/// The slots are in range and no two are the same.
pub open spec fn slots5(n: int, a: int, b: int, c: int, d: int, e: int) -> bool {
    &&& slots4(n, a, b, c, d)
    &&& 0 <= e < n && e != a && e != b && e != c && e != d
}

/// Writing `v` to a slot changes the sum by the difference between `v` and
/// what the slot held.
pub proof fn lemma_total_update(s: Seq<u8>, i: int, v: u8)
    requires
        0 <= i < s.len(),
    ensures
        total(s.update(i, v)) + s[i] == total(s) + v,
    decreases s.len(),
{
    let t = s.update(i, v);
    if i == s.len() - 1 {
        assert(t.drop_last() =~= s.drop_last());
    } else {
        assert(t.drop_last() =~= s.drop_last().update(i, v));
        lemma_total_update(s.drop_last(), i, v);
    }
}

/// A rearrangement of slots keeps a permutation a permutation.
proof fn lemma_rearranged_permutation(s: Seq<u8>, t: Seq<u8>, src: spec_fn(int) -> int)
    requires
        is_permutation(s),
        t.len() == s.len(),
        forall|i: int| 0 <= i < t.len() ==> 0 <= #[trigger] src(i) < s.len() && t[i] == s[src(i)],
        forall|i: int, j: int| 0 <= i < j < t.len() ==> #[trigger] src(i) != #[trigger] src(j),
    ensures
        is_permutation(t),
{
    assert forall|i: int| 0 <= i < t.len() implies (#[trigger] t[i] as int) < t.len() by {
        assert(t[i] == s[src(i)]);
    }
    assert forall|i: int, j: int| 0 <= i < j < t.len() implies t[i] != t[j] by {
        let a = src(i);
        let b = src(j);
        assert(t[i] == s[a] && t[j] == s[b]);
        if a < b {
            assert(s[a] != s[b]);
        } else {
            assert(s[b] != s[a]);
        }
    }
}

/// Exchanging two entries keeps the length, the kind of vector, the sum and
/// the counts, and undoes itself.
pub proof fn lemma_swapped(s: Seq<u8>, a: int, b: int)
    requires
        0 <= a < s.len(),
        0 <= b < s.len(),
    ensures
        swapped(s, a, b).len() == s.len(),
        is_permutation(s) ==> is_permutation(swapped(s, a, b)),
        forall|k: nat| entries_below(s, k) ==> entries_below(swapped(s, a, b), k),
        total(swapped(s, a, b)) == total(s),
        forall|x: int| #[trigger] count_below(swapped(s, a, b), x) == count_below(s, x),
        swapped(swapped(s, a, b), a, b) == s,
{
    assert forall|x: int| #[trigger] count_below(swapped(s, a, b), x) == count_below(s, x) by {
        lemma_count_below_update(s, a, s[b], x);
        lemma_count_below_update(s.update(a, s[b]), b, s[a], x);
    }
    let t = swapped(s, a, b);
    let src = |i: int| if i == a { b } else if i == b { a } else { i };
    if is_permutation(s) {
        lemma_rearranged_permutation(s, t, src);
    }
    assert forall|k: nat| entries_below(s, k) implies entries_below(t, k) by {
        assert forall|i: int| 0 <= i < t.len() implies (#[trigger] t[i] as nat) < k by {
            assert(t[i] == s[src(i)]);
        }
    }
    lemma_total_update(s, a, s[b]);
    lemma_total_update(s.update(a, s[b]), b, s[a]);
    assert(swapped(t, a, b) =~= s);
}

/// A cycle over four slots keeps the length, the kind of vector, the sum and
/// the counts.
pub proof fn lemma_cycled4(s: Seq<u8>, a: int, b: int, c: int, d: int)
    requires
        slots4(s.len() as int, a, b, c, d),
    ensures
        cycled4(s, a, b, c, d).len() == s.len(),
        is_permutation(s) ==> is_permutation(cycled4(s, a, b, c, d)),
        forall|k: nat| entries_below(s, k) ==> entries_below(cycled4(s, a, b, c, d), k),
        total(cycled4(s, a, b, c, d)) == total(s),
        forall|x: int| #[trigger] count_below(cycled4(s, a, b, c, d), x) == count_below(s, x),
{
    let t = cycled4(s, a, b, c, d);
    assert forall|x: int| #[trigger] count_below(t, x) == count_below(s, x) by {
        let s1 = s.update(a, s[d]);
        let s2 = s1.update(b, s[a]);
        let s3 = s2.update(c, s[b]);
        lemma_count_below_update(s, a, s[d], x);
        lemma_count_below_update(s1, b, s[a], x);
        lemma_count_below_update(s2, c, s[b], x);
        lemma_count_below_update(s3, d, s[c], x);
    }
    let src = |i: int|
        if i == a {
            d
        } else if i == b {
            a
        } else if i == c {
            b
        } else if i == d {
            c
        } else {
            i
        };
    if is_permutation(s) {
        lemma_rearranged_permutation(s, t, src);
    }
    assert forall|k: nat| entries_below(s, k) implies entries_below(t, k) by {
        assert forall|i: int| 0 <= i < t.len() implies (#[trigger] t[i] as nat) < k by {
            assert(t[i] == s[src(i)]);
        }
    }
    let s1 = s.update(a, s[d]);
    let s2 = s1.update(b, s[a]);
    let s3 = s2.update(c, s[b]);
    lemma_total_update(s, a, s[d]);
    lemma_total_update(s1, b, s[a]);
    lemma_total_update(s2, c, s[b]);
    lemma_total_update(s3, d, s[c]);
}

/// A cycle over five slots keeps the length, the kind of vector, the sum and
/// the counts.
pub proof fn lemma_cycled5(s: Seq<u8>, a: int, b: int, c: int, d: int, e: int)
    requires
        slots5(s.len() as int, a, b, c, d, e),
    ensures
        cycled5(s, a, b, c, d, e).len() == s.len(),
        is_permutation(s) ==> is_permutation(cycled5(s, a, b, c, d, e)),
        forall|k: nat| entries_below(s, k) ==> entries_below(cycled5(s, a, b, c, d, e), k),
        total(cycled5(s, a, b, c, d, e)) == total(s),
        forall|x: int| #[trigger] count_below(cycled5(s, a, b, c, d, e), x) == count_below(s, x),
{
    let t = cycled5(s, a, b, c, d, e);
    assert forall|x: int| #[trigger] count_below(t, x) == count_below(s, x) by {
        let s1 = s.update(a, s[e]);
        let s2 = s1.update(b, s[a]);
        let s3 = s2.update(c, s[b]);
        let s4 = s3.update(d, s[c]);
        lemma_count_below_update(s, a, s[e], x);
        lemma_count_below_update(s1, b, s[a], x);
        lemma_count_below_update(s2, c, s[b], x);
        lemma_count_below_update(s3, d, s[c], x);
        lemma_count_below_update(s4, e, s[d], x);
    }
    let src = |i: int|
        if i == a {
            e
        } else if i == b {
            a
        } else if i == c {
            b
        } else if i == d {
            c
        } else if i == e {
            d
        } else {
            i
        };
    if is_permutation(s) {
        lemma_rearranged_permutation(s, t, src);
    }
    assert forall|k: nat| entries_below(s, k) implies entries_below(t, k) by {
        assert forall|i: int| 0 <= i < t.len() implies (#[trigger] t[i] as nat) < k by {
            assert(t[i] == s[src(i)]);
        }
    }
    let s1 = s.update(a, s[e]);
    let s2 = s1.update(b, s[a]);
    let s3 = s2.update(c, s[b]);
    let s4 = s3.update(d, s[c]);
    lemma_total_update(s, a, s[e]);
    lemma_total_update(s1, b, s[a]);
    lemma_total_update(s2, c, s[b]);
    lemma_total_update(s3, d, s[c]);
    lemma_total_update(s4, e, s[d]);
}

/// A cycle over four slots comes back to the start after four steps, and,
/// where the entries are all different, not before.
pub proof fn lemma_cycled4_order(s: Seq<u8>, a: int, b: int, c: int, d: int)
    requires
        slots4(s.len() as int, a, b, c, d),
    ensures
        cycled4(cycled4(cycled4(cycled4(s, a, b, c, d), a, b, c, d), a, b, c, d), a, b, c, d) == s,
        distinct(s) ==> cycled4(s, a, b, c, d) != s,
        distinct(s) ==> cycled4(cycled4(s, a, b, c, d), a, b, c, d) != s,
        distinct(s) ==> cycled4(cycled4(cycled4(s, a, b, c, d), a, b, c, d), a, b, c, d) != s,
{
    let s1 = cycled4(s, a, b, c, d);
    let s2 = cycled4(s1, a, b, c, d);
    let s3 = cycled4(s2, a, b, c, d);
    let s4 = cycled4(s3, a, b, c, d);
    assert(s4 =~= s);
    if distinct(s) {
        assert(s1[b] == s[a]);
        assert(s2[c] == s[a]);
        assert(s3[d] == s[a]);
        assert(s[a] != s[b] && s[a] != s[c] && s[a] != s[d]) by {
            if a < b {
                assert(s[a] != s[b]);
            } else {
                assert(s[b] != s[a]);
            }
            if a < c {
                assert(s[a] != s[c]);
            } else {
                assert(s[c] != s[a]);
            }
            if a < d {
                assert(s[a] != s[d]);
            } else {
                assert(s[d] != s[a]);
            }
        }
    }
}

/// A cycle over five slots comes back to the start after five steps, and,
/// where the entries are all different, not before.
pub proof fn lemma_cycled5_order(s: Seq<u8>, a: int, b: int, c: int, d: int, e: int)
    requires
        slots5(s.len() as int, a, b, c, d, e),
    ensures
        cycled5(
            cycled5(
                cycled5(cycled5(cycled5(s, a, b, c, d, e), a, b, c, d, e), a, b, c, d, e),
                a,
                b,
                c,
                d,
                e,
            ),
            a,
            b,
            c,
            d,
            e,
        ) == s,
        distinct(s) ==> cycled5(s, a, b, c, d, e) != s,
        distinct(s) ==> cycled5(cycled5(s, a, b, c, d, e), a, b, c, d, e) != s,
        distinct(s) ==> cycled5(cycled5(cycled5(s, a, b, c, d, e), a, b, c, d, e), a, b, c, d, e)
            != s,
        distinct(s) ==> cycled5(
            cycled5(cycled5(cycled5(s, a, b, c, d, e), a, b, c, d, e), a, b, c, d, e),
            a,
            b,
            c,
            d,
            e,
        ) != s,
{
    let s1 = cycled5(s, a, b, c, d, e);
    let s2 = cycled5(s1, a, b, c, d, e);
    let s3 = cycled5(s2, a, b, c, d, e);
    let s4 = cycled5(s3, a, b, c, d, e);
    let s5 = cycled5(s4, a, b, c, d, e);
    assert(s5 =~= s);
    if distinct(s) {
        assert(s1[b] == s[a]);
        assert(s2[c] == s[a]);
        assert(s3[d] == s[a]);
        assert(s4[e] == s[a]);
        assert(s[a] != s[b] && s[a] != s[c] && s[a] != s[d] && s[a] != s[e]) by {
            if a < b {
                assert(s[a] != s[b]);
            } else {
                assert(s[b] != s[a]);
            }
            if a < c {
                assert(s[a] != s[c]);
            } else {
                assert(s[c] != s[a]);
            }
            if a < d {
                assert(s[a] != s[d]);
            } else {
                assert(s[d] != s[a]);
            }
            if a < e {
                assert(s[a] != s[e]);
            } else {
                assert(s[e] != s[a]);
            }
        }
    }
}

/// Turning stays in `Z_k` and adds the turn, up to a multiple of `k`.
pub proof fn lemma_turned(x: u8, t: u8, k: u8)
    requires
        k >= 1,
    ensures
        turned(x, t, k) < k,
        exists|q: int| #[trigger] (k * q) + turned(x, t, k) == x + t,
{
    reveal(turned);
    let v = x as int + t as int;
    lemma_fundamental_div_mod(v, k as int);
    assert((k * (v / (k as int))) + turned(x, t, k) == x + t);
}

/// Exchanging the entries of two different slots changes the sign of a
/// vector whose entries are all different; a cycle over four slots changes
/// it too, and a cycle over five slots keeps it.
pub proof fn lemma_swapped_sign(s: Seq<u8>, a: int, b: int)
    requires
        distinct(s),
        0 <= a < s.len(),
        0 <= b < s.len(),
        a != b,
    ensures
        even(swapped(s, a, b)) != even(s),
        distinct(swapped(s, a, b)),
{
    if a < b {
        lemma_exchanged_changes_sign(s, a, b);
        assert(swapped(s, a, b) =~= exchanged(s, a, b));
    } else {
        lemma_exchanged_changes_sign(s, b, a);
        assert(swapped(s, a, b) =~= exchanged(s, b, a));
    }
}

/// A cycle over four slots changes the sign of a vector whose entries are
/// all different.
pub proof fn lemma_cycled4_sign(s: Seq<u8>, a: int, b: int, c: int, d: int)
    requires
        distinct(s),
        slots4(s.len() as int, a, b, c, d),
    ensures
        even(cycled4(s, a, b, c, d)) != even(s),
        distinct(cycled4(s, a, b, c, d)),
{
    let s1 = swapped(s, a, b);
    let s2 = swapped(s1, a, c);
    let s3 = swapped(s2, a, d);
    lemma_swapped_sign(s, a, b);
    lemma_swapped_sign(s1, a, c);
    lemma_swapped_sign(s2, a, d);
    assert(s3 =~= cycled4(s, a, b, c, d));
}

/// A cycle over five slots keeps the sign of a vector whose entries are
/// all different.
pub proof fn lemma_cycled5_sign(s: Seq<u8>, a: int, b: int, c: int, d: int, e: int)
    requires
        distinct(s),
        slots5(s.len() as int, a, b, c, d, e),
    ensures
        even(cycled5(s, a, b, c, d, e)) == even(s),
        distinct(cycled5(s, a, b, c, d, e)),
{
    let s1 = swapped(s, a, b);
    let s2 = swapped(s1, a, c);
    let s3 = swapped(s2, a, d);
    let s4 = swapped(s3, a, e);
    lemma_swapped_sign(s, a, b);
    lemma_swapped_sign(s1, a, c);
    lemma_swapped_sign(s2, a, d);
    lemma_swapped_sign(s3, a, e);
    assert(s4 =~= cycled5(s, a, b, c, d, e));
}

/// Turning by nothing leaves an entry of `Z_k` as it is.
pub proof fn lemma_turned_by_zero(x: u8, k: u8)
    requires
        x < k,
    ensures
        turned(x, 0, k) == x,
{
    reveal(turned);
    lemma_small_mod(x as nat, k as nat);
}

/// Turning twice is turning once by the sum of the two amounts.
pub proof fn lemma_turned_turned(x: u8, s: u8, t: u8, k: u8)
    requires
        k >= 1,
    ensures
        turned(turned(x, s, k), t, k) == turned(x, ((s + t) % (k as int)) as u8, k),
{
    reveal(turned);
    let st = (s + t) % (k as int);
    lemma_mod_bound(x as int + s as int, k as int);
    lemma_mod_bound(s as int + t as int, k as int);
    lemma_add_mod_noop_right(t as int, x as int + s as int, k as int);
    lemma_add_mod_noop_right(x as int, s as int + t as int, k as int);
    assert((x + s) % (k as int) + t == t + (x + s) % (k as int));
    assert(x + s + t == t + (x + s));
    assert(x + st == x + (s + t) % (k as int));
}

/// Four turns whose amounts add up to a multiple of `k` bring an entry of
/// `Z_k` back.
pub proof fn lemma_turned_four_times(x: u8, t1: u8, t2: u8, t3: u8, t4: u8, k: u8)
    requires
        k >= 1,
        x < k,
        (t1 + t2 + t3 + t4) % (k as int) == 0,
    ensures
        turned(turned(turned(turned(x, t1, k), t2, k), t3, k), t4, k) == x,
{
    reveal(turned);
    let y1 = turned(x, t1, k);
    let y2 = turned(y1, t2, k);
    let y3 = turned(y2, t3, k);
    let y4 = turned(y3, t4, k);
    lemma_turned(x, t1, k);
    lemma_turned(y1, t2, k);
    lemma_turned(y2, t3, k);
    lemma_turned(y3, t4, k);
    lemma_small_mod(x as nat, k as nat);
    lemma_small_mod(y1 as nat, k as nat);
    lemma_small_mod(y2 as nat, k as nat);
    lemma_small_mod(y3 as nat, k as nat);
    lemma_add_mod_noop(x as int + t1, t2 as int, k as int);
    lemma_add_mod_noop(x as int + t1 + t2, t3 as int, k as int);
    lemma_add_mod_noop(x as int + t1 + t2 + t3, t4 as int, k as int);
    lemma_add_mod_noop(y1 as int, t2 as int, k as int);
    lemma_add_mod_noop(y2 as int, t3 as int, k as int);
    lemma_add_mod_noop(y3 as int, t4 as int, k as int);
    lemma_add_mod_noop(x as int, t1 as int + t2 + t3 + t4, k as int);
}

/// Five turns whose amounts add up to a multiple of `k` bring an entry of
/// `Z_k` back.
pub proof fn lemma_turned_five_times(x: u8, t1: u8, t2: u8, t3: u8, t4: u8, t5: u8, k: u8)
    requires
        k >= 1,
        x < k,
        (t1 + t2 + t3 + t4 + t5) % (k as int) == 0,
    ensures
        turned(turned(turned(turned(turned(x, t1, k), t2, k), t3, k), t4, k), t5, k) == x,
{
    reveal(turned);
    let y1 = turned(x, t1, k);
    let y2 = turned(y1, t2, k);
    let y3 = turned(y2, t3, k);
    let y4 = turned(y3, t4, k);
    lemma_turned(x, t1, k);
    lemma_turned(y1, t2, k);
    lemma_turned(y2, t3, k);
    lemma_turned(y3, t4, k);
    lemma_turned(y4, t5, k);
    lemma_small_mod(x as nat, k as nat);
    lemma_small_mod(y1 as nat, k as nat);
    lemma_small_mod(y2 as nat, k as nat);
    lemma_small_mod(y3 as nat, k as nat);
    lemma_small_mod(y4 as nat, k as nat);
    lemma_add_mod_noop(x as int + t1, t2 as int, k as int);
    lemma_add_mod_noop(x as int + t1 + t2, t3 as int, k as int);
    lemma_add_mod_noop(x as int + t1 + t2 + t3, t4 as int, k as int);
    lemma_add_mod_noop(x as int + t1 + t2 + t3 + t4, t5 as int, k as int);
    lemma_add_mod_noop(y1 as int, t2 as int, k as int);
    lemma_add_mod_noop(y2 as int, t3 as int, k as int);
    lemma_add_mod_noop(y3 as int, t4 as int, k as int);
    lemma_add_mod_noop(y4 as int, t5 as int, k as int);
    lemma_add_mod_noop(x as int, t1 as int + t2 + t3 + t4 + t5, k as int);
}

/// A twisted cycle over four slots whose turns add up to a multiple of `k`
/// comes back to the start after four steps.
pub proof fn lemma_twisted4_order(
    s: Seq<u8>,
    a: int,
    b: int,
    c: int,
    d: int,
    ta: u8,
    tb: u8,
    tc: u8,
    td: u8,
    k: u8,
)
    requires
        slots4(s.len() as int, a, b, c, d),
        k >= 1,
        entries_below(s, k as nat),
        (ta + tb + tc + td) % (k as int) == 0,
    ensures
        twisted4(
            twisted4(
                twisted4(twisted4(s, a, b, c, d, ta, tb, tc, td, k), a, b, c, d, ta, tb, tc, td, k),
                a,
                b,
                c,
                d,
                ta,
                tb,
                tc,
                td,
                k,
            ),
            a,
            b,
            c,
            d,
            ta,
            tb,
            tc,
            td,
            k,
        ) == s,
{
    let s1 = twisted4(s, a, b, c, d, ta, tb, tc, td, k);
    let s2 = twisted4(s1, a, b, c, d, ta, tb, tc, td, k);
    let s3 = twisted4(s2, a, b, c, d, ta, tb, tc, td, k);
    let s4 = twisted4(s3, a, b, c, d, ta, tb, tc, td, k);
    assert((s[a] as nat) < k as nat && (s[b] as nat) < k as nat && (s[c] as nat) < k as nat && (
    s[d] as nat) < k as nat);
    lemma_turned_four_times(s[a], tb, tc, td, ta, k);
    lemma_turned_four_times(s[b], tc, td, ta, tb, k);
    lemma_turned_four_times(s[c], td, ta, tb, tc, k);
    lemma_turned_four_times(s[d], ta, tb, tc, td, k);
    assert(s4 =~= s);
}

/// Four turns that add up to a multiple of `k` keep the sum rule.
pub proof fn lemma_twisted4(
    s: Seq<u8>,
    a: int,
    b: int,
    c: int,
    d: int,
    ta: u8,
    tb: u8,
    tc: u8,
    td: u8,
    k: u8,
)
    requires
        slots4(s.len() as int, a, b, c, d),
        k >= 1,
    ensures
        twisted4(s, a, b, c, d, ta, tb, tc, td, k).len() == s.len(),
        entries_below(s, k as nat) ==> entries_below(
            twisted4(s, a, b, c, d, ta, tb, tc, td, k),
            k as nat,
        ),
        is_orientation(s, k as nat) && (ta + tb + tc + td) % (k as int) == 0 ==> is_orientation(
            twisted4(s, a, b, c, d, ta, tb, tc, td, k),
            k as nat,
        ),
{
    let t = twisted4(s, a, b, c, d, ta, tb, tc, td, k);
    let va = turned(s[d], ta, k);
    let vb = turned(s[a], tb, k);
    let vc = turned(s[b], tc, k);
    let vd = turned(s[c], td, k);
    lemma_turned(s[d], ta, k);
    lemma_turned(s[a], tb, k);
    lemma_turned(s[b], tc, k);
    lemma_turned(s[c], td, k);
    if entries_below(s, k as nat) {
        assert forall|i: int| 0 <= i < t.len() implies (#[trigger] t[i] as nat) < k as nat by {
            if i != a && i != b && i != c && i != d {
                assert(t[i] == s[i]);
            }
        }
    }
    if is_orientation(s, k as nat) && (ta + tb + tc + td) % (k as int) == 0 {
        let s1 = s.update(a, va);
        let s2 = s1.update(b, vb);
        let s3 = s2.update(c, vc);
        lemma_total_update(s, a, va);
        lemma_total_update(s1, b, vb);
        lemma_total_update(s2, c, vc);
        lemma_total_update(s3, d, vd);
        let qa = choose|q: int| #[trigger] (k * q) + va == s[d] + ta;
        let qb = choose|q: int| #[trigger] (k * q) + vb == s[a] + tb;
        let qc = choose|q: int| #[trigger] (k * q) + vc == s[b] + tc;
        let qd = choose|q: int| #[trigger] (k * q) + vd == s[c] + td;
        let turns = ta + tb + tc + td;
        lemma_fundamental_div_mod(turns, k as int);
        lemma_fundamental_div_mod(total(s) as int, k as int);
        let m = total(s) as int / (k as int) + turns / (k as int) - qa - qb - qc - qd;
        assert(total(t) == m * k) by (nonlinear_arith)
            requires
                total(t) == total(s) + turns - k * qa - k * qb - k * qc - k * qd,
                total(s) == k * (total(s) as int / (k as int)),
                turns == k * (turns / (k as int)),
                m == total(s) as int / (k as int) + turns / (k as int) - qa - qb - qc - qd,
        ;
        lemma_mod_multiples_basic(m, k as int);
    }
}

/// Five turns that add up to a multiple of `k` keep the sum rule.
pub proof fn lemma_twisted5(
    s: Seq<u8>,
    a: int,
    b: int,
    c: int,
    d: int,
    e: int,
    ta: u8,
    tb: u8,
    tc: u8,
    td: u8,
    te: u8,
    k: u8,
)
    requires
        slots5(s.len() as int, a, b, c, d, e),
        k >= 1,
    ensures
        twisted5(s, a, b, c, d, e, ta, tb, tc, td, te, k).len() == s.len(),
        entries_below(s, k as nat) ==> entries_below(
            twisted5(s, a, b, c, d, e, ta, tb, tc, td, te, k),
            k as nat,
        ),
        is_orientation(s, k as nat) && (ta + tb + tc + td + te) % (k as int) == 0
            ==> is_orientation(twisted5(s, a, b, c, d, e, ta, tb, tc, td, te, k), k as nat),
{
    let t = twisted5(s, a, b, c, d, e, ta, tb, tc, td, te, k);
    let va = turned(s[e], ta, k);
    let vb = turned(s[a], tb, k);
    let vc = turned(s[b], tc, k);
    let vd = turned(s[c], td, k);
    let ve = turned(s[d], te, k);
    lemma_turned(s[e], ta, k);
    lemma_turned(s[a], tb, k);
    lemma_turned(s[b], tc, k);
    lemma_turned(s[c], td, k);
    lemma_turned(s[d], te, k);
    if entries_below(s, k as nat) {
        assert forall|i: int| 0 <= i < t.len() implies (#[trigger] t[i] as nat) < k as nat by {
            if i != a && i != b && i != c && i != d && i != e {
                assert(t[i] == s[i]);
            }
        }
    }
    if is_orientation(s, k as nat) && (ta + tb + tc + td + te) % (k as int) == 0 {
        let s1 = s.update(a, va);
        let s2 = s1.update(b, vb);
        let s3 = s2.update(c, vc);
        let s4 = s3.update(d, vd);
        lemma_total_update(s, a, va);
        lemma_total_update(s1, b, vb);
        lemma_total_update(s2, c, vc);
        lemma_total_update(s3, d, vd);
        lemma_total_update(s4, e, ve);
        let qa = choose|q: int| #[trigger] (k * q) + va == s[e] + ta;
        let qb = choose|q: int| #[trigger] (k * q) + vb == s[a] + tb;
        let qc = choose|q: int| #[trigger] (k * q) + vc == s[b] + tc;
        let qd = choose|q: int| #[trigger] (k * q) + vd == s[c] + td;
        let qe = choose|q: int| #[trigger] (k * q) + ve == s[d] + te;
        let turns = ta + tb + tc + td + te;
        lemma_fundamental_div_mod(turns, k as int);
        lemma_fundamental_div_mod(total(s) as int, k as int);
        let m = total(s) as int / (k as int) + turns / (k as int) - qa - qb - qc - qd - qe;
        assert(total(t) == m * k) by (nonlinear_arith)
            requires
                total(t) == total(s) + turns - k * qa - k * qb - k * qc - k * qd - k * qe,
                total(s) == k * (total(s) as int / (k as int)),
                turns == k * (turns / (k as int)),
                m == total(s) as int / (k as int) + turns / (k as int) - qa - qb - qc - qd - qe,
        ;
        lemma_mod_multiples_basic(m, k as int);
    }
}

/// Exchanges the entries of two slots.
pub fn swap<const N: usize>(arr: &mut [u8; N], a: usize, b: usize)
    requires
        a < N,
        b < N,
    ensures
        final(arr)@ == swapped(old(arr)@, a as int, b as int),
        is_permutation(old(arr)@) ==> is_permutation(final(arr)@),
        forall|k: nat| entries_below(old(arr)@, k) ==> entries_below(final(arr)@, k),
        total(final(arr)@) == total(old(arr)@),
        forall|x: int| #[trigger] count_below(final(arr)@, x) == count_below(old(arr)@, x),
{
    let x = arr[a];
    arr[a] = arr[b];
    arr[b] = x;
    proof {
        assert(arr@ =~= swapped(old(arr)@, a as int, b as int));
        lemma_swapped(old(arr)@, a as int, b as int);
    }
}

/// Carries the entries of four slots one step along the cycle
/// `a -> b -> c -> d -> a`.
pub fn cycle4<const N: usize>(arr: &mut [u8; N], a: usize, b: usize, c: usize, d: usize)
    requires
        slots4(N as int, a as int, b as int, c as int, d as int),
    ensures
        final(arr)@ == cycled4(old(arr)@, a as int, b as int, c as int, d as int),
        is_permutation(old(arr)@) ==> is_permutation(final(arr)@),
        forall|k: nat| entries_below(old(arr)@, k) ==> entries_below(final(arr)@, k),
        total(final(arr)@) == total(old(arr)@),
        forall|x: int| #[trigger] count_below(final(arr)@, x) == count_below(old(arr)@, x),
{
    let x = arr[a];
    arr[a] = arr[d];
    arr[d] = arr[c];
    arr[c] = arr[b];
    arr[b] = x;
    proof {
        assert(arr@ =~= cycled4(old(arr)@, a as int, b as int, c as int, d as int));
        lemma_cycled4(old(arr)@, a as int, b as int, c as int, d as int);
    }
}

/// Carries the entries of five slots one step along the cycle
/// `a -> b -> c -> d -> e -> a`.
pub fn cycle5<const N: usize>(
    arr: &mut [u8; N],
    a: usize,
    b: usize,
    c: usize,
    d: usize,
    e: usize,
)
    requires
        slots5(N as int, a as int, b as int, c as int, d as int, e as int),
    ensures
        final(arr)@ == cycled5(old(arr)@, a as int, b as int, c as int, d as int, e as int),
        is_permutation(old(arr)@) ==> is_permutation(final(arr)@),
        forall|k: nat| entries_below(old(arr)@, k) ==> entries_below(final(arr)@, k),
        total(final(arr)@) == total(old(arr)@),
        forall|x: int| #[trigger] count_below(final(arr)@, x) == count_below(old(arr)@, x),
{
    let x = arr[a];
    arr[a] = arr[e];
    arr[e] = arr[d];
    arr[d] = arr[c];
    arr[c] = arr[b];
    arr[b] = x;
    proof {
        assert(arr@ =~= cycled5(old(arr)@, a as int, b as int, c as int, d as int, e as int));
        lemma_cycled5(old(arr)@, a as int, b as int, c as int, d as int, e as int);
    }
}

/// `x` turned by `t` in `Z_k`.
pub fn turn(x: u8, t: u8, k: u8) -> (r: u8)
    requires
        k >= 1,
    ensures
        r == turned(x, t, k),
        r < k,
{
    proof {
        reveal(turned);
    }
    ((x as u16 + t as u16) % (k as u16)) as u8
}

/// Carries the entries of four slots one step along the cycle
/// `a -> b -> c -> d -> a`, turning each by the amount given for the slot it
/// arrives in.
pub fn twist4<const N: usize>(
    arr: &mut [u8; N],
    a: usize,
    b: usize,
    c: usize,
    d: usize,
    ta: u8,
    tb: u8,
    tc: u8,
    td: u8,
    k: u8,
)
    requires
        slots4(N as int, a as int, b as int, c as int, d as int),
        k >= 1,
    ensures
        final(arr)@ == twisted4(
            old(arr)@,
            a as int,
            b as int,
            c as int,
            d as int,
            ta,
            tb,
            tc,
            td,
            k,
        ),
        entries_below(old(arr)@, k as nat) ==> entries_below(final(arr)@, k as nat),
        is_orientation(old(arr)@, k as nat) && (ta + tb + tc + td) % (k as int) == 0
            ==> is_orientation(final(arr)@, k as nat),
{
    let x = arr[a];
    arr[a] = turn(arr[d], ta, k);
    arr[d] = turn(arr[c], td, k);
    arr[c] = turn(arr[b], tc, k);
    arr[b] = turn(x, tb, k);
    proof {
        assert(arr@ =~= twisted4(
            old(arr)@,
            a as int,
            b as int,
            c as int,
            d as int,
            ta,
            tb,
            tc,
            td,
            k,
        ));
        lemma_twisted4(old(arr)@, a as int, b as int, c as int, d as int, ta, tb, tc, td, k);
    }
}

/// Carries the entries of five slots one step along the cycle
/// `a -> b -> c -> d -> e -> a`, turning each by the amount given for the
/// slot it arrives in.
pub fn twist5<const N: usize>(
    arr: &mut [u8; N],
    a: usize,
    b: usize,
    c: usize,
    d: usize,
    e: usize,
    ta: u8,
    tb: u8,
    tc: u8,
    td: u8,
    te: u8,
    k: u8,
)
    requires
        slots5(N as int, a as int, b as int, c as int, d as int, e as int),
        k >= 1,
    ensures
        final(arr)@ == twisted5(
            old(arr)@,
            a as int,
            b as int,
            c as int,
            d as int,
            e as int,
            ta,
            tb,
            tc,
            td,
            te,
            k,
        ),
        entries_below(old(arr)@, k as nat) ==> entries_below(final(arr)@, k as nat),
        is_orientation(old(arr)@, k as nat) && (ta + tb + tc + td + te) % (k as int) == 0
            ==> is_orientation(final(arr)@, k as nat),
{
    let x = arr[a];
    arr[a] = turn(arr[e], ta, k);
    arr[e] = turn(arr[d], te, k);
    arr[d] = turn(arr[c], td, k);
    arr[c] = turn(arr[b], tc, k);
    arr[b] = turn(x, tb, k);
    proof {
        assert(arr@ =~= twisted5(
            old(arr)@,
            a as int,
            b as int,
            c as int,
            d as int,
            e as int,
            ta,
            tb,
            tc,
            td,
            te,
            k,
        ));
        lemma_twisted5(
            old(arr)@,
            a as int,
            b as int,
            c as int,
            d as int,
            e as int,
            ta,
            tb,
            tc,
            td,
            te,
            k,
        );
    }
}

/// Whether two piece vectors hold the same entries.
pub fn same<const N: usize>(x: &[u8; N], y: &[u8; N]) -> (r: bool)
    ensures
        r == (x@ == y@),
{
    let mut i: usize = 0;
    while i < N
        invariant
            i <= N,
            forall|j: int| 0 <= j < i ==> x@[j] == y@[j],
        decreases N - i,
    {
        if x[i] != y[i] {
            return false;
        }
        i = i + 1;
    }
    assert(x@ =~= y@);
    true
}

} // verus!
