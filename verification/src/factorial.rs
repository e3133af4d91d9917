//! Factorials, the place values of the factorial number system.

use vstd::prelude::*;

verus! {

/// `n!`.
pub open spec fn fact(n: nat) -> nat
    decreases n,
{
    if n == 0 {
        1
    } else {
        n * fact((n - 1) as nat)
    }
}

/// Factorials are positive.
pub proof fn lemma_fact_positive(n: nat)
    ensures
        fact(n) >= 1,
    decreases n,
{
    if n > 0 {
        lemma_fact_positive((n - 1) as nat);
        assert(n * fact((n - 1) as nat) >= 1) by (nonlinear_arith)
            requires
                n >= 1,
                fact((n - 1) as nat) >= 1,
        ;
    }
}

/// Factorials grow with their argument.
pub proof fn lemma_fact_monotonic(m: nat, n: nat)
    requires
        m <= n,
    ensures
        fact(m) <= fact(n),
    decreases n,
{
    if m < n {
        lemma_fact_monotonic(m, (n - 1) as nat);
        lemma_fact_positive((n - 1) as nat);
        assert(n * fact((n - 1) as nat) >= fact((n - 1) as nat)) by (nonlinear_arith)
            requires
                n >= 1,
                fact((n - 1) as nat) >= 1,
        ;
    }
}

/// The largest argument whose factorial fits in 64 bits.
pub const MAX_FACT_ARG: usize = 20;

/// The values of `0!` to `20!`.
pub proof fn lemma_fact_values()
    ensures
        fact(0) == 1,
        fact(1) == 1,
        fact(2) == 2,
        fact(3) == 6,
        fact(4) == 24,
        fact(5) == 120,
        fact(6) == 720,
        fact(7) == 5040,
        fact(8) == 40320,
        fact(9) == 362880,
        fact(10) == 3628800,
        fact(11) == 39916800,
        fact(12) == 479001600,
        fact(13) == 6227020800,
        fact(14) == 87178291200,
        fact(15) == 1307674368000,
        fact(16) == 20922789888000,
        fact(17) == 355687428096000,
        fact(18) == 6402373705728000,
        fact(19) == 121645100408832000,
        fact(20) == 2432902008176640000,
{
    reveal_with_fuel(fact, 22);
}

/// Computes `n!` for `n <= 20`.
pub fn factorial(n: usize) -> (f: u64)
    requires
        n <= MAX_FACT_ARG,
    ensures
        f == fact(n as nat),
{
    let mut f: u64 = 1;
    let mut i: usize = 0;
    while i < n
        invariant
            i <= n <= MAX_FACT_ARG,
            f == fact(i as nat),
        decreases n - i,
    {
        i = i + 1;
        proof {
            lemma_fact_values();
            lemma_fact_monotonic(i as nat, 20);
            assert(fact(i as nat) == f * i) by (nonlinear_arith)
                requires
                    fact(i as nat) == i * fact((i - 1) as nat),
                    f == fact((i - 1) as nat),
            ;
        }
        f = f * (i as u64);
    }
    f
}

} // verus!
