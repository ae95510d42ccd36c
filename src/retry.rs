//! Backoff arithmetic shared by the stages' retry policies.

use vstd::prelude::*;

verus! {

/// Two to the power `n`.
pub open spec fn pow2(n: nat) -> nat
    decreases n,
{
    if n == 0 {
        1
    } else {
        2 * pow2((n - 1) as nat)
    }
}

pub proof fn lemma_pow2_mono(a: nat, b: nat)
    requires
        a <= b,
    ensures
        1 <= pow2(a) <= pow2(b),
    decreases b,
{
    if b > 0 {
        if a == b {
            lemma_pow2_mono((a - 1) as nat, (b - 1) as nat);
        } else {
            lemma_pow2_mono(a, (b - 1) as nat);
        }
    }
}

/// Exponential backoff: `base * 2^attempt` milliseconds.
pub open spec fn exp_backoff(base: nat, attempt: nat) -> nat {
    base * pow2(attempt)
}

/// `base * 2^attempt`, for the small attempt counts the stages use.
pub fn exp_backoff_ms(base: u64, attempt: u32) -> (r: u64)
    requires
        attempt <= 16,
        base <= 1_000_000,
    ensures
        r == exp_backoff(base as nat, attempt as nat),
{
    let mut d: u64 = base;
    let mut k: u32 = 0;
    assert(pow2(0) == 1);
    while k < attempt
        invariant
            k <= attempt <= 16,
            base <= 1_000_000,
            d == base * pow2(k as nat),
        decreases attempt - k,
    {
        proof {
            lemma_pow2_mono((k + 1) as nat, 16);
            reveal_with_fuel(pow2, 17);
            assert(pow2(16) == 65536);
            assert(base * pow2((k + 1) as nat) <= 1_000_000 * 65536) by (nonlinear_arith)
                requires base <= 1_000_000, pow2((k + 1) as nat) <= 65536;
            assert(pow2((k + 1) as nat) == 2 * pow2(k as nat));
            assert(base * pow2((k + 1) as nat) == 2 * (base * pow2(k as nat))) by (nonlinear_arith)
                requires pow2((k + 1) as nat) == 2 * pow2(k as nat);
        }
        d = d * 2;
        k = k + 1;
    }
    d
}

} // verus!
