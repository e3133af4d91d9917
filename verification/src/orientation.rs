//! Orientation vectors as numbers in base `k`.
//!
//! An orientation vector holds one value of `Z_k` per slot. Where the sum of
//! all entries is fixed modulo `k`, the last entry follows from the others
//! and only the others are stored. Where only some slots carry an
//! orientation, picked out by what a companion vector holds there, only
//! those slots are stored.

use vstd::prelude::*;
use vstd::arithmetic::div_mod::{
    lemma_add_mod_noop, lemma_fundamental_div_mod, lemma_fundamental_div_mod_converse,
    lemma_mod_twice, lemma_small_mod,
};
use vstd::arithmetic::mul::lemma_mul_is_commutative;
use crate::counting::{count_below, lemma_count_below_monotonic};

verus! {

/// `k` to the power `n`.
pub open spec fn power(k: nat, n: nat) -> nat
    decreases n,
{
    if n == 0 {
        1
    } else {
        k * power(k, (n - 1) as nat)
    }
}

/// Every entry is below `k`.
pub open spec fn entries_below(s: Seq<u8>, k: nat) -> bool {
    forall|i: int| 0 <= i < s.len() ==> (#[trigger] s[i] as nat) < k
}

/// The sum of the entries.
pub open spec fn total(s: Seq<u8>) -> nat
    decreases s.len(),
{
    if s.len() == 0 {
        0
    } else {
        total(s.drop_last()) + s.last() as nat
    }
}

/// The number that the entries spell in base `k`, first entry first.
pub open spec fn digits_value(s: Seq<u8>, k: nat) -> nat
    decreases s.len(),
{
    if s.len() == 0 {
        0
    } else {
        digits_value(s.drop_last(), k) * k + s.last() as nat
    }
}

/// The last `n` digits of `r` in base `k`, first digit first.
pub open spec fn digits_of(r: nat, n: nat, k: nat) -> Seq<u8>
    decreases n,
{
    if n == 0 {
        Seq::empty()
    } else {
        digits_of(r / k, (n - 1) as nat, k).push((r % k) as u8)
    }
}

/// The entry that brings the sum of a vector starting with `head` to a
/// multiple of `k`.
pub open spec fn closing_entry(head: Seq<u8>, k: nat) -> u8 {
    ((k - total(head) % k) % (k as int)) as u8
}

/// The entries are below `k` and sum to a multiple of `k`.
pub open spec fn is_orientation(s: Seq<u8>, k: nat) -> bool {
    &&& entries_below(s, k)
    &&& total(s) % k == 0
}

/// The rank of an orientation vector: its entries but the last, read in
/// base `k`.
pub open spec fn ori_rank(s: Seq<u8>, k: nat) -> nat {
    digits_value(s.drop_last(), k)
}

/// The orientation vector of length `n` with rank `r`.
pub open spec fn ori_unrank(r: nat, n: nat, k: nat) -> Seq<u8> {
    let head = digits_of(r, (n - 1) as nat, k);
    head.push(closing_entry(head, k))
}

/// Powers of a positive number are positive.
pub proof fn lemma_power_positive(k: nat, n: nat)
    requires
        k >= 1,
    ensures
        power(k, n) >= 1,
    decreases n,
{
    if n > 0 {
        lemma_power_positive(k, (n - 1) as nat);
        assert(k * power(k, (n - 1) as nat) >= 1) by (nonlinear_arith)
            requires
                k >= 1,
                power(k, (n - 1) as nat) >= 1,
        ;
    }
}

/// Powers of a positive number grow with the exponent.
pub proof fn lemma_power_monotonic(k: nat, m: nat, n: nat)
    requires
        k >= 1,
        m <= n,
    ensures
        power(k, m) <= power(k, n),
    decreases n,
{
    if m < n {
        lemma_power_monotonic(k, m, (n - 1) as nat);
        lemma_power_positive(k, (n - 1) as nat);
        assert(k * power(k, (n - 1) as nat) >= power(k, (n - 1) as nat)) by (nonlinear_arith)
            requires
                k >= 1,
                power(k, (n - 1) as nat) >= 1,
        ;
    }
}

/// An entry put in front adds itself to the sum.
pub proof fn lemma_total_prepend(a: u8, s: Seq<u8>)
    ensures
        total(seq![a] + s) == a + total(s),
    decreases s.len(),
{
    if s.len() == 0 {
        assert(seq![a] + s =~= seq![a]);
        assert(seq![a].drop_last() =~= Seq::<u8>::empty());
        reveal_with_fuel(total, 2);
    } else {
        assert((seq![a] + s).drop_last() =~= seq![a] + s.drop_last());
        lemma_total_prepend(a, s.drop_last());
    }
}

/// Digits below `k` spell a number below `k` to the number of digits.
pub proof fn lemma_digits_value_bound(s: Seq<u8>, k: nat)
    requires
        entries_below(s, k),
    ensures
        digits_value(s, k) < power(k, s.len()),
    decreases s.len(),
{
    if s.len() > 0 {
        let head = s.drop_last();
        assert forall|i: int| 0 <= i < head.len() implies (#[trigger] head[i] as nat) < k by {
            assert(head[i] == s[i]);
        }
        lemma_digits_value_bound(head, k);
        assert((s[s.len() - 1] as nat) < k);
        let v = digits_value(head, k);
        let p = power(k, head.len());
        assert(v * k + k <= k * p) by (nonlinear_arith)
            requires
                v + 1 <= p,
        ;
    }
}

/// The quotient and remainder of a number below `k * p`.
proof fn lemma_split_digit(r: nat, k: nat, p: nat)
    requires
        k > 0,
        r < k * p,
    ensures
        r / k < p,
        r % k < k,
        r == (r / k) * k + r % k,
{
    lemma_fundamental_div_mod(r as int, k as int);
    lemma_mul_is_commutative(k as int, (r / k) as int);
    if r / k >= p {
        assert(k * (r / k) >= k * p) by (nonlinear_arith)
            requires
                r / k >= p,
                k > 0,
        ;
    }
}

/// Writing a number in base `k` and reading the digits gives it back.
pub proof fn lemma_value_of_digits(r: nat, n: nat, k: nat)
    requires
        1 <= k <= 256,
        r < power(k, n),
    ensures
        digits_of(r, n, k).len() == n,
        entries_below(digits_of(r, n, k), k),
        digits_value(digits_of(r, n, k), k) == r,
    decreases n,
{
    if n > 0 {
        lemma_split_digit(r, k, power(k, (n - 1) as nat));
        lemma_value_of_digits(r / k, (n - 1) as nat, k);
        let head = digits_of(r / k, (n - 1) as nat, k);
        let s = digits_of(r, n, k);
        assert(s.drop_last() =~= head);
        assert forall|i: int| 0 <= i < s.len() implies (#[trigger] s[i] as nat) < k by {
            if i < n - 1 {
                assert(s[i] == head[i]);
            }
        }
    }
}

/// Reading digits below `k` and writing the number gives them back.
pub proof fn lemma_digits_of_value(s: Seq<u8>, k: nat)
    requires
        k >= 1,
        entries_below(s, k),
    ensures
        digits_of(digits_value(s, k), s.len(), k) == s,
    decreases s.len(),
{
    if s.len() == 0 {
        assert(s =~= Seq::<u8>::empty());
    } else {
        let head = s.drop_last();
        assert forall|i: int| 0 <= i < head.len() implies (#[trigger] head[i] as nat) < k by {
            assert(head[i] == s[i]);
        }
        lemma_digits_of_value(head, k);
        let v = digits_value(head, k);
        let a = s.last() as nat;
        assert(a == s[s.len() - 1] as nat);
        lemma_mul_is_commutative(k as int, v as int);
        lemma_fundamental_div_mod_converse((v * k + a) as int, k as int, v as int, a as int);
        assert(s =~= head.push(s.last()));
    }
}

/// The closing entry is below `k` and closes the sum.
pub proof fn lemma_closing_entry(head: Seq<u8>, k: nat)
    requires
        1 <= k <= 256,
    ensures
        (closing_entry(head, k) as nat) < k,
        (total(head) + closing_entry(head, k)) % (k as int) == 0,
{
    let t = total(head);
    let m = t % k;
    let q = t / k;
    lemma_fundamental_div_mod(t as int, k as int);
    if m == 0 {
        assert((k - m) % (k as int) == 0) by (nonlinear_arith)
            requires
                m == 0,
                k >= 1,
        ;
    } else {
        assert((k - m) % (k as int) == k - m) by (nonlinear_arith)
            requires
                0 < m < k,
        ;
        assert((k * q + m + (k - m)) % (k as int) == 0) by (nonlinear_arith)
            requires
                k >= 1,
                q >= 0,
        ;
    }
}

/// If a last entry below `k` closes the sum, it is the closing entry.
pub proof fn lemma_closing_entry_unique(head: Seq<u8>, a: u8, k: nat)
    requires
        1 <= k <= 256,
        (a as nat) < k,
        (total(head) + a) % (k as int) == 0,
    ensures
        a == closing_entry(head, k),
{
    let t = total(head);
    let m = t % k;
    let q = t / k;
    lemma_fundamental_div_mod(t as int, k as int);
    lemma_closing_entry(head, k);
    let c = closing_entry(head, k) as int;
    assert(a == c) by (nonlinear_arith)
        requires
            t == k * q + m,
            0 <= m < k,
            a < k,
            0 <= c < k,
            (t + a) % (k as int) == 0,
            (t + c) % (k as int) == 0,
            k >= 1,
    ;
}

/// Unranking yields a vector that keeps the sum rule, and ranking it gives
/// the rank back.
pub proof fn lemma_ori_rank_of_unrank(r: nat, n: nat, k: nat)
    requires
        n >= 1,
        1 <= k <= 256,
        r < power(k, (n - 1) as nat),
    ensures
        ori_unrank(r, n, k).len() == n,
        is_orientation(ori_unrank(r, n, k), k),
        ori_rank(ori_unrank(r, n, k), k) == r,
{
    let head = digits_of(r, (n - 1) as nat, k);
    let v = ori_unrank(r, n, k);
    lemma_value_of_digits(r, (n - 1) as nat, k);
    lemma_closing_entry(head, k);
    assert(v.drop_last() =~= head);
    assert forall|i: int| 0 <= i < v.len() implies (#[trigger] v[i] as nat) < k by {
        if i < n - 1 {
            assert(v[i] == head[i]);
        }
    }
}

/// Ranking a vector that keeps the sum rule and unranking the rank gives
/// the vector back.
pub proof fn lemma_ori_unrank_of_rank(s: Seq<u8>, k: nat)
    requires
        s.len() >= 1,
        1 <= k <= 256,
        is_orientation(s, k),
    ensures
        ori_rank(s, k) < power(k, (s.len() - 1) as nat),
        ori_unrank(ori_rank(s, k), s.len(), k) == s,
{
    let head = s.drop_last();
    assert forall|i: int| 0 <= i < head.len() implies (#[trigger] head[i] as nat) < k by {
        assert(head[i] == s[i]);
    }
    lemma_digits_value_bound(head, k);
    lemma_digits_of_value(head, k);
    assert((s[s.len() - 1] as nat) < k);
    lemma_closing_entry_unique(head, s.last(), k);
    assert(s =~= head.push(s.last()));
}

/// Ranks an orientation vector over `Z_k`: reads all entries but the last
/// as a number in base `k`.
pub fn encode_orientation<const N: usize>(ori: &[u8; N], k: u8) -> (r: u32)
    requires
        N >= 1,
        k >= 1,
        entries_below(ori@, k as nat),
        power(k as nat, (N - 1) as nat) <= u32::MAX,
    ensures
        r == ori_rank(ori@, k as nat),
        r < power(k as nat, (N - 1) as nat),
{
    let mut r: u32 = 0;
    let mut i: usize = 0;
    assert(ori@.take(0) =~= Seq::<u8>::empty());
    while i < N - 1
        invariant
            i <= N - 1,
            k >= 1,
            entries_below(ori@, k as nat),
            power(k as nat, (N - 1) as nat) <= u32::MAX,
            r == digits_value(ori@.take(i as int), k as nat),
        decreases N - 1 - i,
    {
        proof {
            let next = ori@.take(i as int + 1);
            assert(next.drop_last() =~= ori@.take(i as int));
            assert forall|j: int| 0 <= j < next.len() implies (#[trigger] next[j] as nat)
                < k as nat by {
                assert(next[j] == ori@[j]);
            }
            lemma_digits_value_bound(next, k as nat);
            lemma_power_monotonic(k as nat, (i + 1) as nat, (N - 1) as nat);
            assert(r * k >= 0) by (nonlinear_arith)
                requires
                    r >= 0,
                    k >= 0,
            ;
        }
        r = r * (k as u32) + ori[i] as u32;
        i = i + 1;
    }
    proof {
        let head = ori@.take(N as int - 1);
        assert(head =~= ori@.drop_last());
        assert forall|j: int| 0 <= j < head.len() implies (#[trigger] head[j] as nat)
            < k as nat by {
            assert(head[j] == ori@[j]);
        }
        lemma_digits_value_bound(head, k as nat);
    }
    r
}

/// The orientation vector over `Z_k` with rank `coord`: the digits of
/// `coord` in base `k`, and a last entry that brings the sum to a multiple
/// of `k`.
pub fn decode_orientation<const N: usize>(coord: u32, k: u8) -> (ori: [u8; N])
    requires
        N >= 1,
        k >= 1,
        coord < power(k as nat, (N - 1) as nat),
    ensures
        ori@ == ori_unrank(coord as nat, N as nat, k as nat),
        is_orientation(ori@, k as nat),
        ori_rank(ori@, k as nat) == coord,
{
    let mut ori = [0u8; N];
    let mut rem: u32 = coord;
    let mut sum: u32 = 0;
    let mut i: usize = N - 1;
    let ghost head = digits_of(coord as nat, (N - 1) as nat, k as nat);
    proof {
        lemma_value_of_digits(coord as nat, (N - 1) as nat, k as nat);
        assert(digits_of(rem as nat, i as nat, k as nat) + ori@.subrange(i as int, N - 1)
            =~= head);
        assert(ori@.subrange(i as int, N - 1) =~= Seq::<u8>::empty());
        lemma_small_mod(0, k as nat);
    }
    while i > 0
        invariant
            i <= N - 1,
            k >= 1,
            head == digits_of(coord as nat, (N - 1) as nat, k as nat),
            digits_of(rem as nat, i as nat, k as nat) + ori@.subrange(i as int, N - 1) == head,
            sum == total(ori@.subrange(i as int, N - 1)) % (k as nat),
        decreases i,
    {
        let ghost before = ori@.subrange(i as int, N - 1);
        let digit = (rem % (k as u32)) as u8;
        i = i - 1;
        ori[i] = digit;
        sum = (sum + digit as u32) % (k as u32);
        rem = rem / (k as u32);
        proof {
            assert(ori@.subrange(i as int, N - 1) =~= seq![digit] + before);
            lemma_total_prepend(digit, before);
            lemma_small_mod(digit as nat, k as nat);
            lemma_add_mod_noop(total(before) as int, digit as int, k as int);
            assert(digits_of(rem as nat, i as nat, k as nat) + ori@.subrange(i as int, N - 1)
                =~= digits_of(rem as nat, i as nat, k as nat).push(digit) + before);
        }
    }
    proof {
        assert(digits_of(rem as nat, 0, k as nat) + ori@.subrange(0, N - 1) =~= ori@.subrange(
            0,
            N - 1,
        ));
        lemma_closing_entry(head, k as nat);
    }
    proof {
        lemma_mod_twice(total(head) as int, k as int);
    }
    let last = ((k as u32 - sum % (k as u32)) % (k as u32)) as u8;
    ori[N - 1] = last;
    proof {
        assert(ori@ =~= head.push(closing_entry(head, k as nat)));
        lemma_ori_rank_of_unrank(coord as nat, N as nat, k as nat);
    }
    ori
}

/// A vector of zeros keeps the sum rule, whatever the modulus.
pub proof fn lemma_zeros(s: Seq<u8>, k: nat)
    requires
        k >= 1,
        forall|i: int| 0 <= i < s.len() ==> s[i] == 0,
    ensures
        total(s) == 0,
        entries_below(s, k),
        is_orientation(s, k),
    decreases s.len(),
{
    if s.len() > 0 {
        assert(s.last() == s[s.len() - 1]);
        assert forall|i: int| 0 <= i < s.drop_last().len() implies s.drop_last()[i] == 0 by {
            assert(s.drop_last()[i] == s[i]);
        }
        lemma_zeros(s.drop_last(), k);
    }
    lemma_small_mod(0, k);
}

/// A vector of zeros has rank 0.
pub proof fn lemma_zero_rank(s: Seq<u8>, k: nat)
    requires
        forall|i: int| 0 <= i < s.len() ==> s[i] == 0,
    ensures
        digits_value(s, k) == 0,
        s.len() > 0 ==> ori_rank(s, k) == 0,
    decreases s.len(),
{
    if s.len() > 0 {
        assert(s.last() == s[s.len() - 1]);
        let head = s.drop_last();
        assert forall|i: int| 0 <= i < head.len() implies head[i] == 0 by {
            assert(head[i] == s[i]);
        }
        lemma_zero_rank(head, k);
        assert(0 * k == 0) by (nonlinear_arith);
    }
}

/// Whether a slot carries an orientation, judged by what the companion
/// vector holds there: a value from `lo` to `hi`.
pub open spec fn selected(x: u8, lo: u8, hi: u8) -> bool {
    lo <= x <= hi
}

/// The number of slots that carry an orientation.
pub open spec fn count_selected(companion: Seq<u8>, lo: u8, hi: u8) -> nat {
    if lo <= hi {
        (count_below(companion, hi as int + 1) - count_below(companion, lo as int)) as nat
    } else {
        0
    }
}

/// The number that the entries in the selected slots spell in base `k`,
/// first slot first.
pub open spec fn selected_value(ori: Seq<u8>, companion: Seq<u8>, lo: u8, hi: u8, k: nat) -> nat
    decreases ori.len(),
{
    if ori.len() == 0 {
        0
    } else {
        let v = selected_value(ori.drop_last(), companion.drop_last(), lo, hi, k);
        if selected(companion.last(), lo, hi) {
            v * k + ori.last() as nat
        } else {
            v
        }
    }
}

/// `ori` with the digits of `r` in base `k` written to the selected slots,
/// lowest digit in the last of them. The other slots keep what they hold.
pub open spec fn selected_fill(
    ori: Seq<u8>,
    companion: Seq<u8>,
    lo: u8,
    hi: u8,
    k: nat,
    r: nat,
) -> Seq<u8>
    decreases ori.len(),
{
    if ori.len() == 0 {
        Seq::empty()
    } else if selected(companion.last(), lo, hi) {
        selected_fill(ori.drop_last(), companion.drop_last(), lo, hi, k, r / k).push(
            (r % k) as u8,
        )
    } else {
        selected_fill(ori.drop_last(), companion.drop_last(), lo, hi, k, r).push(ori.last())
    }
}

/// The last slot adds one to the number of selected slots if it is
/// selected itself.
pub proof fn lemma_count_selected_step(companion: Seq<u8>, lo: u8, hi: u8)
    requires
        companion.len() > 0,
    ensures
        count_selected(companion, lo, hi) == count_selected(companion.drop_last(), lo, hi) + if selected(
            companion.last(),
            lo,
            hi,
        ) {
            1nat
        } else {
            0nat
        },
{
    if lo <= hi {
        lemma_count_below_monotonic(companion, lo as int, hi as int + 1);
        lemma_count_below_monotonic(companion.drop_last(), lo as int, hi as int + 1);
    }
}

/// A prefix has no more selected slots than the whole.
pub proof fn lemma_count_selected_prefix(companion: Seq<u8>, lo: u8, hi: u8, i: int)
    requires
        0 <= i <= companion.len(),
    ensures
        count_selected(companion.take(i), lo, hi) <= count_selected(companion, lo, hi),
    decreases companion.len() - i,
{
    if i < companion.len() {
        lemma_count_selected_prefix(companion, lo, hi, i + 1);
        assert(companion.take(i + 1).drop_last() =~= companion.take(i));
        lemma_count_selected_step(companion.take(i + 1), lo, hi);
    } else {
        assert(companion.take(i) =~= companion);
    }
}

/// Digits below `k` in the selected slots spell a number below `k` to the
/// number of selected slots.
pub proof fn lemma_selected_value_bound(ori: Seq<u8>, companion: Seq<u8>, lo: u8, hi: u8, k: nat)
    requires
        ori.len() == companion.len(),
        entries_below(ori, k),
        k >= 1,
    ensures
        selected_value(ori, companion, lo, hi, k) < power(k, count_selected(companion, lo, hi)),
    decreases ori.len(),
{
    if ori.len() == 0 {
        assert(count_selected(companion, lo, hi) == 0);
    } else {
        let head = ori.drop_last();
        assert forall|i: int| 0 <= i < head.len() implies (#[trigger] head[i] as nat) < k by {
            assert(head[i] == ori[i]);
        }
        lemma_selected_value_bound(head, companion.drop_last(), lo, hi, k);
        lemma_count_selected_step(companion, lo, hi);
        assert((ori[ori.len() - 1] as nat) < k);
        if selected(companion.last(), lo, hi) {
            let v = selected_value(head, companion.drop_last(), lo, hi, k);
            let p = power(k, count_selected(companion.drop_last(), lo, hi));
            assert(v * k + k <= k * p) by (nonlinear_arith)
                requires
                    v + 1 <= p,
            ;
        }
    }
}

/// Filling the selected slots from a number and reading them gives the
/// number back; the other slots are left alone.
pub proof fn lemma_selected_value_of_fill(
    ori: Seq<u8>,
    companion: Seq<u8>,
    lo: u8,
    hi: u8,
    k: nat,
    r: nat,
)
    requires
        ori.len() == companion.len(),
        1 <= k <= 256,
    ensures
        selected_fill(ori, companion, lo, hi, k, r).len() == ori.len(),
        forall|i: int|
            0 <= i < ori.len() && !selected(companion[i], lo, hi) ==> #[trigger] selected_fill(
                ori,
                companion,
                lo,
                hi,
                k,
                r,
            )[i] == ori[i],
        entries_below(ori, k) ==> entries_below(selected_fill(ori, companion, lo, hi, k, r), k),
        r < power(k, count_selected(companion, lo, hi)) ==> selected_value(
            selected_fill(ori, companion, lo, hi, k, r),
            companion,
            lo,
            hi,
            k,
        ) == r,
    decreases ori.len(),
{
    let filled = selected_fill(ori, companion, lo, hi, k, r);
    if ori.len() > 0 {
        let head = ori.drop_last();
        let chead = companion.drop_last();
        let last = ori.len() - 1;
        lemma_count_selected_step(companion, lo, hi);
        assert(companion.last() == companion[last]);
        assert(ori.last() == ori[last]);
        if selected(companion.last(), lo, hi) {
            lemma_selected_value_of_fill(head, chead, lo, hi, k, r / k);
            let fhead = selected_fill(head, chead, lo, hi, k, r / k);
            assert(filled.drop_last() =~= fhead);
            lemma_fundamental_div_mod(r as int, k as int);
            lemma_mul_is_commutative(k as int, (r / k) as int);
            if r < power(k, count_selected(companion, lo, hi)) {
                lemma_split_digit(r, k, power(k, count_selected(chead, lo, hi)));
            }
            assert forall|i: int| 0 <= i < ori.len() && !selected(
                companion[i],
                lo,
                hi,
            ) implies #[trigger] filled[i] == ori[i] by {
                assert(filled[i] == fhead[i]);
                assert(chead[i] == companion[i]);
                assert(head[i] == ori[i]);
            }
            if entries_below(ori, k) {
                assert forall|i: int| 0 <= i < head.len() implies (#[trigger] head[i] as nat)
                    < k by {
                    assert(head[i] == ori[i]);
                }
                assert forall|i: int| 0 <= i < filled.len() implies (#[trigger] filled[i] as nat)
                    < k by {
                    if i < last {
                        assert(filled[i] == fhead[i]);
                    }
                }
            }
        } else {
            lemma_selected_value_of_fill(head, chead, lo, hi, k, r);
            let fhead = selected_fill(head, chead, lo, hi, k, r);
            assert(filled.drop_last() =~= fhead);
            assert forall|i: int| 0 <= i < ori.len() && !selected(
                companion[i],
                lo,
                hi,
            ) implies #[trigger] filled[i] == ori[i] by {
                if i < last {
                    assert(filled[i] == fhead[i]);
                    assert(chead[i] == companion[i]);
                    assert(head[i] == ori[i]);
                }
            }
            if entries_below(ori, k) {
                assert forall|i: int| 0 <= i < head.len() implies (#[trigger] head[i] as nat)
                    < k by {
                    assert(head[i] == ori[i]);
                }
                assert forall|i: int| 0 <= i < filled.len() implies (#[trigger] filled[i] as nat)
                    < k by {
                    if i < last {
                        assert(filled[i] == fhead[i]);
                    }
                }
            }
        }
    }
}

/// Reading the selected slots and filling them from the number read
/// changes nothing.
pub proof fn lemma_selected_fill_of_value(
    ori: Seq<u8>,
    companion: Seq<u8>,
    lo: u8,
    hi: u8,
    k: nat,
)
    requires
        ori.len() == companion.len(),
        k >= 1,
        entries_below(ori, k),
    ensures
        selected_fill(ori, companion, lo, hi, k, selected_value(ori, companion, lo, hi, k)) == ori,
    decreases ori.len(),
{
    if ori.len() == 0 {
        assert(ori =~= Seq::<u8>::empty());
    } else {
        let head = ori.drop_last();
        let chead = companion.drop_last();
        assert forall|i: int| 0 <= i < head.len() implies (#[trigger] head[i] as nat) < k by {
            assert(head[i] == ori[i]);
        }
        lemma_selected_fill_of_value(head, chead, lo, hi, k);
        let v = selected_value(head, chead, lo, hi, k);
        let a = ori.last() as nat;
        assert(a == ori[ori.len() - 1] as nat);
        if selected(companion.last(), lo, hi) {
            lemma_mul_is_commutative(k as int, v as int);
            lemma_fundamental_div_mod_converse((v * k + a) as int, k as int, v as int, a as int);
        }
        assert(ori =~= head.push(ori.last()));
    }
}

/// The number read from the selected slots does not depend on what the
/// other slots hold.
pub proof fn lemma_selected_value_agree(
    a: Seq<u8>,
    b: Seq<u8>,
    companion: Seq<u8>,
    lo: u8,
    hi: u8,
    k: nat,
)
    requires
        a.len() == companion.len(),
        b.len() == companion.len(),
        forall|i: int| 0 <= i < a.len() && selected(#[trigger] companion[i], lo, hi) ==> a[i] == b[i],
    ensures
        selected_value(a, companion, lo, hi, k) == selected_value(b, companion, lo, hi, k),
    decreases a.len(),
{
    if a.len() > 0 {
        let last = a.len() - 1;
        let chead = companion.drop_last();
        assert forall|i: int| 0 <= i < last && selected(#[trigger] chead[i], lo, hi) implies a.drop_last()[i]
            == b.drop_last()[i] by {
            assert(chead[i] == companion[i]);
            assert(a.drop_last()[i] == a[i] && b.drop_last()[i] == b[i]);
        }
        lemma_selected_value_agree(a.drop_last(), b.drop_last(), chead, lo, hi, k);
        assert(companion.last() == companion[last]);
        assert(a.last() == a[last] && b.last() == b[last]);
    }
}

/// What is written to the selected slots does not depend on what the
/// vector held before.
pub proof fn lemma_selected_fill_agree(
    a: Seq<u8>,
    b: Seq<u8>,
    companion: Seq<u8>,
    lo: u8,
    hi: u8,
    k: nat,
    r: nat,
)
    requires
        a.len() == companion.len(),
        b.len() == companion.len(),
        k >= 1,
    ensures
        selected_fill(a, companion, lo, hi, k, r).len() == a.len(),
        selected_fill(b, companion, lo, hi, k, r).len() == a.len(),
        forall|i: int|
            0 <= i < a.len() && selected(#[trigger] companion[i], lo, hi) ==> selected_fill(
                a,
                companion,
                lo,
                hi,
                k,
                r,
            )[i] == selected_fill(b, companion, lo, hi, k, r)[i],
    decreases a.len(),
{
    if a.len() > 0 {
        let last = a.len() - 1;
        let chead = companion.drop_last();
        let fa = selected_fill(a, companion, lo, hi, k, r);
        let fb = selected_fill(b, companion, lo, hi, k, r);
        let r1 = if selected(companion.last(), lo, hi) {
            r / k
        } else {
            r
        };
        lemma_selected_fill_agree(a.drop_last(), b.drop_last(), chead, lo, hi, k, r1);
        assert(companion.last() == companion[last]);
        let ha = selected_fill(a.drop_last(), chead, lo, hi, k, r1);
        let hb = selected_fill(b.drop_last(), chead, lo, hi, k, r1);
        if selected(companion.last(), lo, hi) {
            assert(fa == ha.push((r % k) as u8));
            assert(fb == hb.push((r % k) as u8));
        } else {
            assert(fa == ha.push(a.last()));
            assert(fb == hb.push(b.last()));
        }
        assert forall|i: int| 0 <= i < a.len() && selected(
            #[trigger] companion[i],
            lo,
            hi,
        ) implies fa[i] == fb[i] by {
            if i < last {
                assert(chead[i] == companion[i]);
                assert(fa[i] == ha[i]);
                assert(fb[i] == hb[i]);
            }
        }
    }
}

/// Reads the entries in the selected slots as a number in base `k`.
///
/// Which slots are selected depends on `companion`: the companion vector
/// has to hold its final value before this is called.
pub fn encode_selected<const N: usize>(
    ori: &[u8; N],
    companion: &[u8; N],
    lo: u8,
    hi: u8,
    k: u8,
) -> (r: u32)
    requires
        k >= 1,
        entries_below(ori@, k as nat),
        power(k as nat, count_selected(companion@, lo, hi)) <= u32::MAX,
    ensures
        r == selected_value(ori@, companion@, lo, hi, k as nat),
        r < power(k as nat, count_selected(companion@, lo, hi)),
{
    let mut r: u32 = 0;
    let mut i: usize = 0;
    assert(ori@.take(0) =~= Seq::<u8>::empty());
    while i < N
        invariant
            i <= N,
            k >= 1,
            entries_below(ori@, k as nat),
            power(k as nat, count_selected(companion@, lo, hi)) <= u32::MAX,
            r == selected_value(ori@.take(i as int), companion@.take(i as int), lo, hi, k as nat),
        decreases N - i,
    {
        proof {
            let next = ori@.take(i as int + 1);
            let cnext = companion@.take(i as int + 1);
            assert(next.drop_last() =~= ori@.take(i as int));
            assert(cnext.drop_last() =~= companion@.take(i as int));
            assert forall|j: int| 0 <= j < next.len() implies (#[trigger] next[j] as nat)
                < k as nat by {
                assert(next[j] == ori@[j]);
            }
            lemma_selected_value_bound(next, cnext, lo, hi, k as nat);
            lemma_count_selected_prefix(companion@, lo, hi, i as int + 1);
            lemma_power_monotonic(
                k as nat,
                count_selected(cnext, lo, hi),
                count_selected(companion@, lo, hi),
            );
            assert(r * k >= 0) by (nonlinear_arith)
                requires
                    r >= 0,
                    k >= 0,
            ;
        }
        if lo <= companion[i] && companion[i] <= hi {
            r = r * (k as u32) + ori[i] as u32;
        }
        i = i + 1;
    }
    proof {
        assert(ori@.take(N as int) =~= ori@);
        assert(companion@.take(N as int) =~= companion@);
        lemma_selected_value_bound(ori@, companion@, lo, hi, k as nat);
    }
    r
}

/// Writes the digits of `coord` in base `k` to the selected slots of
/// `ori`, and leaves the other slots as they are.
///
/// Which slots are selected depends on `companion`: the companion vector
/// has to hold its final value before this is called.
pub fn decode_selected<const N: usize>(
    ori: &mut [u8; N],
    companion: &[u8; N],
    lo: u8,
    hi: u8,
    k: u8,
    coord: u32,
)
    requires
        k >= 1,
    ensures
        final(ori)@ == selected_fill(old(ori)@, companion@, lo, hi, k as nat, coord as nat),
        entries_below(old(ori)@, k as nat) ==> entries_below(final(ori)@, k as nat),
        coord < power(k as nat, count_selected(companion@, lo, hi)) ==> selected_value(
            final(ori)@,
            companion@,
            lo,
            hi,
            k as nat,
        ) == coord,
{
    let mut rem: u32 = coord;
    let mut i: usize = N;
    let ghost target = selected_fill(old(ori)@, companion@, lo, hi, k as nat, coord as nat);
    proof {
        lemma_selected_value_of_fill(old(ori)@, companion@, lo, hi, k as nat, coord as nat);
        assert(ori@.take(N as int) =~= ori@);
        assert(companion@.take(N as int) =~= companion@);
        assert(ori@.skip(N as int) =~= Seq::<u8>::empty());
        assert(target + Seq::<u8>::empty() =~= target);
    }
    while i > 0
        invariant
            i <= N,
            k >= 1,
            ori@.take(i as int) == old(ori)@.take(i as int),
            selected_fill(
                old(ori)@.take(i as int),
                companion@.take(i as int),
                lo,
                hi,
                k as nat,
                rem as nat,
            ) + ori@.skip(i as int) == target,
        decreases i,
    {
        let ghost after = ori@.skip(i as int);
        let ghost whole = old(ori)@.take(i as int);
        let ghost cwhole = companion@.take(i as int);
        i = i - 1;
        proof {
            assert(whole.drop_last() =~= old(ori)@.take(i as int));
            assert(cwhole.drop_last() =~= companion@.take(i as int));
            assert(whole.last() == old(ori)@[i as int]);
            assert(cwhole.last() == companion@[i as int]);
            assert(ori@[i as int] == ori@.take(i as int + 1)[i as int]);
        }
        if lo <= companion[i] && companion[i] <= hi {
            ori[i] = (rem % (k as u32)) as u8;
            rem = rem / (k as u32);
        }
        proof {
            assert(ori@.skip(i as int) =~= seq![ori@[i as int]] + after);
            assert(ori@.take(i as int) =~= old(ori)@.take(i as int));
            let head = selected_fill(
                old(ori)@.take(i as int),
                companion@.take(i as int),
                lo,
                hi,
                k as nat,
                rem as nat,
            );
            assert(head + (seq![ori@[i as int]] + after) =~= head.push(ori@[i as int]) + after);
        }
    }
    proof {
        assert(old(ori)@.take(0) =~= Seq::<u8>::empty());
        assert(ori@.skip(0) =~= ori@);
        assert(Seq::<u8>::empty() + ori@ =~= ori@);
    }
}

} // verus!
