//! Several coordinates as one number, in mixed radix.
//!
//! Coordinates `c[0] < n[0]`, ..., `c[k-1] < n[k-1]` make up the number
//! `((c[0] * n[1] + c[1]) * n[2] + c[2]) ...`: the first coordinate is in
//! the highest place. Taking the number apart gives the coordinates back,
//! last coordinate first.
//!
//! The order of the coordinates is part of what a number means. Where
//! decoding one coordinate reads what decoding another has written (a sign,
//! or the places that tell which slots carry an orientation), the other has
//! to be decoded first, whatever place it has in the number.

use vstd::prelude::*;
use vstd::arithmetic::div_mod::{lemma_fundamental_div_mod, lemma_fundamental_div_mod_converse};
use vstd::arithmetic::mul::lemma_mul_is_commutative;

verus! {

/// The product of the radices: the number of numbers that the coordinates
/// can make up.
pub open spec fn product(radices: Seq<nat>) -> nat
    decreases radices.len(),
{
    if radices.len() == 0 {
        1
    } else {
        product(radices.drop_last()) * radices.last()
    }
}

/// Each coordinate is below its radix.
pub open spec fn in_range(coords: Seq<nat>, radices: Seq<nat>) -> bool {
    &&& coords.len() == radices.len()
    &&& forall|i: int| 0 <= i < coords.len() ==> coords[i] < radices[i]
}

/// The number that the coordinates make up.
pub open spec fn composed(coords: Seq<nat>, radices: Seq<nat>) -> nat
    decreases coords.len(),
{
    if coords.len() == 0 {
        0
    } else {
        composed(coords.drop_last(), radices.drop_last()) * radices.last() + coords.last()
    }
}

/// The coordinates that make up a number.
pub open spec fn split(number: nat, radices: Seq<nat>) -> Seq<nat>
    decreases radices.len(),
{
    if radices.len() == 0 {
        Seq::empty()
    } else {
        split(number / radices.last(), radices.drop_last()).push(number % radices.last())
    }
}

/// The values of a vector of machine numbers.
pub open spec fn values(v: Seq<u64>) -> Seq<nat> {
    Seq::new(v.len(), |i: int| v[i] as nat)
}

/// Coordinates in range make up a number below the product of the
/// radices.
pub proof fn lemma_composed_bound(coords: Seq<nat>, radices: Seq<nat>)
    requires
        in_range(coords, radices),
    ensures
        composed(coords, radices) < product(radices),
    decreases coords.len(),
{
    if coords.len() > 0 {
        let head = coords.drop_last();
        let rhead = radices.drop_last();
        assert forall|i: int| 0 <= i < head.len() implies head[i] < rhead[i] by {
            assert(head[i] == coords[i] && rhead[i] == radices[i]);
        }
        lemma_composed_bound(head, rhead);
        let c = composed(head, rhead);
        let p = product(rhead);
        let n = radices.last();
        assert(coords[coords.len() - 1] < radices[coords.len() - 1]);
        assert(c * n + n <= p * n) by (nonlinear_arith)
            requires
                c + 1 <= p,
        ;
    }
}

/// Taking apart the number that coordinates in range make up gives the
/// coordinates back.
pub proof fn lemma_split_of_composed(coords: Seq<nat>, radices: Seq<nat>)
    requires
        in_range(coords, radices),
    ensures
        split(composed(coords, radices), radices) == coords,
    decreases coords.len(),
{
    if coords.len() == 0 {
        assert(coords =~= Seq::<nat>::empty());
    } else {
        let head = coords.drop_last();
        let rhead = radices.drop_last();
        assert forall|i: int| 0 <= i < head.len() implies head[i] < rhead[i] by {
            assert(head[i] == coords[i] && rhead[i] == radices[i]);
        }
        lemma_split_of_composed(head, rhead);
        let c = composed(head, rhead);
        let n = radices.last();
        let a = coords.last();
        assert(coords[coords.len() - 1] < radices[coords.len() - 1]);
        lemma_mul_is_commutative(n as int, c as int);
        lemma_fundamental_div_mod_converse((c * n + a) as int, n as int, c as int, a as int);
        assert(coords =~= head.push(a));
    }
}

/// Putting together the coordinates of a number below the product of the
/// radices gives the number back, and the coordinates are in range.
pub proof fn lemma_composed_of_split(number: nat, radices: Seq<nat>)
    requires
        forall|i: int| 0 <= i < radices.len() ==> radices[i] > 0,
        number < product(radices),
    ensures
        in_range(split(number, radices), radices),
        composed(split(number, radices), radices) == number,
    decreases radices.len(),
{
    if radices.len() > 0 {
        let rhead = radices.drop_last();
        let n = radices.last();
        assert(n == radices[radices.len() - 1]);
        assert forall|i: int| 0 <= i < rhead.len() implies rhead[i] > 0 by {
            assert(rhead[i] == radices[i]);
        }
        lemma_fundamental_div_mod(number as int, n as int);
        lemma_mul_is_commutative(n as int, (number / n) as int);
        let p = product(rhead);
        if number / n >= p {
            assert((number / n) * n >= p * n) by (nonlinear_arith)
                requires
                    number / n >= p,
                    n > 0,
            ;
        }
        lemma_composed_of_split(number / n, rhead);
        let coords = split(number, radices);
        assert(coords.drop_last() =~= split(number / n, rhead));
        assert forall|i: int| 0 <= i < coords.len() implies coords[i] < radices[i] by {
            if i < coords.len() - 1 {
                assert(coords[i] == split(number / n, rhead)[i]);
                assert(rhead[i] == radices[i]);
            }
        }
    }
}

/// Puts coordinates together into one number.
pub fn compose(coords: &[u64], radices: &[u64]) -> (number: u64)
    requires
        in_range(values(coords@), values(radices@)),
        product(values(radices@)) <= u64::MAX,
    ensures
        number == composed(values(coords@), values(radices@)),
        number < product(values(radices@)),
{
    let ghost cs = values(coords@);
    let ghost rs = values(radices@);
    let mut number: u64 = 0;
    let mut i: usize = 0;
    proof {
        assert(cs.take(0) =~= Seq::<nat>::empty());
    }
    while i < coords.len()
        invariant
            i <= coords@.len(),
            coords@.len() == radices@.len(),
            cs == values(coords@),
            rs == values(radices@),
            in_range(cs, rs),
            product(rs) <= u64::MAX,
            number == composed(cs.take(i as int), rs.take(i as int)),
        decreases coords@.len() - i,
    {
        proof {
            let next = cs.take(i as int + 1);
            let rnext = rs.take(i as int + 1);
            assert(next.drop_last() =~= cs.take(i as int));
            assert(rnext.drop_last() =~= rs.take(i as int));
            assert forall|j: int| 0 <= j < next.len() implies next[j] < rnext[j] by {
                assert(next[j] == cs[j] && rnext[j] == rs[j]);
            }
            lemma_composed_bound(next, rnext);
            lemma_product_prefix(rs, i as int + 1);
            assert(next.last() == coords@[i as int] as nat);
            assert(rnext.last() == radices@[i as int] as nat);
            assert(number * radices@[i as int] >= 0) by (nonlinear_arith)
                requires
                    number >= 0,
                    radices@[i as int] >= 0,
            ;
        }
        number = number * radices[i] + coords[i];
        i = i + 1;
    }
    proof {
        assert(cs.take(coords@.len() as int) =~= cs);
        assert(rs.take(coords@.len() as int) =~= rs);
        lemma_composed_bound(cs, rs);
    }
    number
}

/// The product of the first radices is at most the product of all, where
/// none of them is 0.
pub proof fn lemma_product_prefix(radices: Seq<nat>, n: int)
    requires
        0 <= n <= radices.len(),
        forall|i: int| 0 <= i < radices.len() ==> radices[i] > 0,
    ensures
        1 <= product(radices.take(n)) <= product(radices),
    decreases radices.len() - n,
{
    if n == radices.len() {
        assert(radices.take(n) =~= radices);
        lemma_product_positive(radices);
    } else {
        lemma_product_prefix(radices, n + 1);
        let next = radices.take(n + 1);
        assert(next.drop_last() =~= radices.take(n));
        assert(next.last() == radices[n]);
        lemma_product_positive(radices.take(n));
        let p = product(radices.take(n));
        let r = radices[n];
        assert(p <= p * r) by (nonlinear_arith)
            requires
                r >= 1,
                p >= 0,
        ;
    }
}

/// A product of positive radices is positive.
pub proof fn lemma_product_positive(radices: Seq<nat>)
    requires
        forall|i: int| 0 <= i < radices.len() ==> radices[i] > 0,
    ensures
        product(radices) >= 1,
    decreases radices.len(),
{
    if radices.len() > 0 {
        let head = radices.drop_last();
        assert forall|i: int| 0 <= i < head.len() implies head[i] > 0 by {
            assert(head[i] == radices[i]);
        }
        lemma_product_positive(head);
        assert(radices.last() == radices[radices.len() - 1]);
        assert(product(head) * radices.last() >= 1) by (nonlinear_arith)
            requires
                product(head) >= 1,
                radices.last() >= 1,
        ;
    }
}

/// Takes a number apart into its coordinates.
pub fn decompose(number: u64, radices: &[u64]) -> (coords: Vec<u64>)
    requires
        forall|i: int| 0 <= i < radices@.len() ==> radices@[i] > 0,
    ensures
        values(coords@) == split(number as nat, values(radices@)),
        number < product(values(radices@)) ==> in_range(values(coords@), values(radices@))
            && composed(values(coords@), values(radices@)) == number,
{
    let ghost rs = values(radices@);
    let n = radices.len();
    let mut coords: Vec<u64> = Vec::new();
    let mut k: usize = 0;
    while k < n
        invariant
            k <= n,
            n == radices@.len(),
            coords@.len() == k,
        decreases n - k,
    {
        coords.push(0);
        k = k + 1;
    }
    let mut rest: u64 = number;
    let mut i: usize = n;
    proof {
        assert(values(coords@).skip(n as int) =~= Seq::<nat>::empty());
        assert(rs.take(n as int) =~= rs);
        assert(split(rest as nat, rs.take(i as int)) + values(coords@).skip(i as int) =~= split(
            number as nat,
            rs,
        ));
    }
    while i > 0
        invariant
            i <= n,
            n == radices@.len(),
            coords@.len() == n,
            rs == values(radices@),
            forall|j: int| 0 <= j < radices@.len() ==> radices@[j] > 0,
            split(rest as nat, rs.take(i as int)) + values(coords@).skip(i as int) == split(
                number as nat,
                rs,
            ),
        decreases i,
    {
        let ghost after = values(coords@).skip(i as int);
        let ghost whole = rs.take(i as int);
        i = i - 1;
        let radix = radices[i];
        proof {
            assert(whole.drop_last() =~= rs.take(i as int));
            assert(whole.last() == radix as nat);
        }
        coords.set(i, rest % radix);
        let ghost digit = (rest % radix) as nat;
        rest = rest / radix;
        proof {
            assert(values(coords@).skip(i as int) =~= seq![digit] + after);
            let head = split(rest as nat, rs.take(i as int));
            assert(head + (seq![digit] + after) =~= head.push(digit) + after);
        }
    }
    proof {
        assert(rs.take(0) =~= Seq::<nat>::empty());
        assert(values(coords@).skip(0) =~= values(coords@));
        assert(Seq::<nat>::empty() + values(coords@) =~= values(coords@));
        if number < product(rs) {
            assert forall|j: int| 0 <= j < rs.len() implies rs[j] > 0 by {
                assert(radices@[j] > 0);
            }
            lemma_composed_of_split(number as nat, rs);
        }
    }
    coords
}

} // verus!
