//! Counting the entries of a piece vector that lie below a bound.
//!
//! Ranking a sequence asks, slot by slot, how many of the later entries are
//! smaller than the entry at hand. Everything the rankings need to know
//! about such counts is proved here.

use vstd::prelude::*;

verus! {

/// 1 if `b` holds, else 0.
pub open spec fn indicator(b: bool) -> nat {
    if b {
        1
    } else {
        0
    }
}

/// The number of entries of `s` that are less than `x`.
pub open spec fn count_below(s: Seq<u8>, x: int) -> nat
    decreases s.len(),
{
    if s.len() == 0 {
        0
    } else {
        count_below(s.drop_last(), x) + indicator((s.last() as int) < x)
    }
}

/// Every entry comes before every later one.
pub open spec fn strictly_increasing(s: Seq<u8>) -> bool {
    forall|i: int, j: int| 0 <= i < j < s.len() ==> s[i] < s[j]
}

/// No value occurs twice.
pub open spec fn distinct(s: Seq<u8>) -> bool {
    forall|i: int, j: int| 0 <= i < j < s.len() ==> s[i] != s[j]
}

/// No more entries lie below a bound than there are entries.
pub proof fn lemma_count_below_bound(s: Seq<u8>, x: int)
    ensures
        count_below(s, x) <= s.len(),
    decreases s.len(),
{
    if s.len() > 0 {
        lemma_count_below_bound(s.drop_last(), x);
    }
}

/// A single entry counts if it lies below the bound.
pub proof fn lemma_count_below_single(a: u8, x: int)
    ensures
        count_below(seq![a], x) == indicator((a as int) < x),
{
    assert(seq![a].drop_last() =~= Seq::<u8>::empty());
    reveal_with_fuel(count_below, 2);
}

/// The count of a vector made of two parts is the sum of the counts of the
/// parts.
pub proof fn lemma_count_below_concat(s: Seq<u8>, t: Seq<u8>, x: int)
    ensures
        count_below(s + t, x) == count_below(s, x) + count_below(t, x),
    decreases t.len(),
{
    if t.len() == 0 {
        assert(s + t =~= s);
    } else {
        assert((s + t).drop_last() =~= s + t.drop_last());
        lemma_count_below_concat(s, t.drop_last(), x);
    }
}

/// Taking the first entry off takes its share off the count.
pub proof fn lemma_count_below_drop_first(s: Seq<u8>, x: int)
    requires
        s.len() > 0,
    ensures
        count_below(s, x) == indicator((s[0] as int) < x) + count_below(s.drop_first(), x),
{
    assert(s =~= seq![s[0]] + s.drop_first());
    lemma_count_below_concat(seq![s[0]], s.drop_first(), x);
    lemma_count_below_single(s[0], x);
}

/// Taking any entry out takes its share off the count.
pub proof fn lemma_count_below_remove(s: Seq<u8>, d: int, x: int)
    requires
        0 <= d < s.len(),
    ensures
        count_below(s, x) == indicator((s[d] as int) < x) + count_below(s.remove(d), x),
{
    let front = s.take(d);
    let back = s.skip(d + 1);
    assert(s =~= front + seq![s[d]] + back);
    assert(s.remove(d) =~= front + back);
    lemma_count_below_concat(front + seq![s[d]], back, x);
    lemma_count_below_concat(front, seq![s[d]], x);
    lemma_count_below_concat(front, back, x);
    lemma_count_below_single(s[d], x);
}

/// Writing `v` to slot `i` takes the old entry's share off the count and
/// adds that of `v`.
pub proof fn lemma_count_below_update(s: Seq<u8>, i: int, v: u8, x: int)
    requires
        0 <= i < s.len(),
    ensures
        count_below(s.update(i, v), x) + indicator((s[i] as int) < x) == count_below(s, x)
            + indicator((v as int) < x),
{
    lemma_count_below_remove(s, i, x);
    lemma_count_below_remove(s.update(i, v), i, x);
    assert(s.update(i, v).remove(i) =~= s.remove(i));
}

/// Where every entry lies below the bound, all are counted.
pub proof fn lemma_count_all_below(s: Seq<u8>, x: int)
    requires
        forall|i: int| 0 <= i < s.len() ==> (#[trigger] s[i] as int) < x,
    ensures
        count_below(s, x) == s.len(),
    decreases s.len(),
{
    if s.len() > 0 {
        assert(s.last() == s[s.len() - 1]);
        assert forall|i: int| 0 <= i < s.drop_last().len() implies (#[trigger] s.drop_last()[i]
            as int) < x by {
            assert(s.drop_last()[i] == s[i]);
        }
        lemma_count_all_below(s.drop_last(), x);
    }
}

/// Where no entry lies below the bound, none is counted.
pub proof fn lemma_count_none_below(s: Seq<u8>, x: int)
    requires
        forall|i: int| 0 <= i < s.len() ==> (#[trigger] s[i] as int) >= x,
    ensures
        count_below(s, x) == 0,
    decreases s.len(),
{
    if s.len() > 0 {
        assert(s.last() == s[s.len() - 1]);
        assert forall|i: int| 0 <= i < s.drop_last().len() implies (#[trigger] s.drop_last()[i]
            as int) >= x by {
            assert(s.drop_last()[i] == s[i]);
        }
        lemma_count_none_below(s.drop_last(), x);
    }
}

/// In an increasing sequence, the entries below the one at `k` are the
/// first `k`.
pub proof fn lemma_count_below_sorted(s: Seq<u8>, k: int)
    requires
        strictly_increasing(s),
        0 <= k < s.len(),
    ensures
        count_below(s, s[k] as int) == k,
{
    let x = s[k] as int;
    let front = s.take(k);
    let back = s.skip(k);
    assert(s =~= front + back);
    lemma_count_below_concat(front, back, x);
    assert forall|i: int| 0 <= i < front.len() implies (#[trigger] front[i] as int) < x by {
        assert(front[i] == s[i]);
    }
    lemma_count_all_below(front, x);
    assert forall|i: int| 0 <= i < back.len() implies (#[trigger] back[i] as int) >= x by {
        assert(back[i] == s[i + k]);
    }
    lemma_count_none_below(back, x);
}

/// The count does not fall when the bound rises.
pub proof fn lemma_count_below_monotonic(s: Seq<u8>, x: int, y: int)
    requires
        x <= y,
    ensures
        count_below(s, x) <= count_below(s, y),
    decreases s.len(),
{
    if s.len() > 0 {
        lemma_count_below_monotonic(s.drop_last(), x, y);
    }
}

/// A value that occurs is counted once the bound passes it.
pub proof fn lemma_count_below_step_present(s: Seq<u8>, i: int)
    requires
        0 <= i < s.len(),
    ensures
        count_below(s, s[i] as int + 1) > count_below(s, s[i] as int),
{
    let x = s[i] as int;
    lemma_count_below_remove(s, i, x);
    lemma_count_below_remove(s, i, x + 1);
    lemma_count_below_monotonic(s.remove(i), x, x + 1);
}

/// A value that does not occur adds nothing when the bound passes it.
pub proof fn lemma_count_below_step_absent(s: Seq<u8>, x: int)
    requires
        forall|i: int| 0 <= i < s.len() ==> (#[trigger] s[i] as int) != x,
    ensures
        count_below(s, x + 1) == count_below(s, x),
    decreases s.len(),
{
    if s.len() > 0 {
        assert(s.last() == s[s.len() - 1]);
        assert forall|i: int| 0 <= i < s.drop_last().len() implies (#[trigger] s.drop_last()[i]
            as int) != x by {
            assert(s.drop_last()[i] == s[i]);
        }
        lemma_count_below_step_absent(s.drop_last(), x);
    }
}

/// Pigeonhole: distinct values below `m` number at most `m`.
pub proof fn lemma_distinct_bounded_len(s: Seq<u8>, m: nat)
    requires
        distinct(s),
        forall|i: int| 0 <= i < s.len() ==> (#[trigger] s[i] as int) < m,
    ensures
        s.len() <= m,
    decreases m,
{
    if m == 0 {
        if s.len() > 0 {
            assert((s[0] as int) < 0);
        }
    } else if exists|k: int| 0 <= k < s.len() && s[k] as int == m - 1 {
        let k = choose|k: int| 0 <= k < s.len() && s[k] as int == m - 1;
        let t = s.remove(k);
        assert forall|i: int| 0 <= i < t.len() implies (#[trigger] t[i] as int) < m - 1 by {
            if i < k {
                assert(t[i] == s[i]);
            } else {
                assert(t[i] == s[i + 1]);
            }
        }
        assert forall|i: int, j: int| 0 <= i < j < t.len() implies t[i] != t[j] by {
            let a = if i < k { i } else { i + 1 };
            let b = if j < k { j } else { j + 1 };
            assert(t[i] == s[a] && t[j] == s[b]);
        }
        lemma_distinct_bounded_len(t, (m - 1) as nat);
    } else {
        assert forall|i: int| 0 <= i < s.len() implies (#[trigger] s[i] as int) < m - 1 by {
            assert(s[i] as int != m - 1);
        }
        lemma_distinct_bounded_len(s, (m - 1) as nat);
    }
}

/// The number of the first `n` entries of `s` that are less than `x`,
/// counted by going through the slots one by one.
pub open spec fn count_below_upto(s: Seq<u8>, x: int, n: int) -> nat
    decreases n,
{
    if n <= 0 {
        0
    } else {
        count_below_upto(s, x, n - 1) + indicator((s[n - 1] as int) < x)
    }
}

/// Going through the slots one by one counts right.
pub proof fn lemma_count_below_upto(s: Seq<u8>, x: int, n: int)
    requires
        0 <= n <= s.len(),
    ensures
        count_below(s.take(n), x) == count_below_upto(s, x, n),
    decreases n,
{
    if n > 0 {
        lemma_count_below_upto(s, x, n - 1);
        assert(s.take(n).drop_last() =~= s.take(n - 1));
    }
}

} // verus!
