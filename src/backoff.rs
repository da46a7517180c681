//! Exponential backoff between ingestion attempts.
use vstd::prelude::*;

verus! {

/// Number of fetch attempts made before an ingestion gives up.
pub const MAX_RETRIES: u32 = 3;

/// `2^n`.
pub open spec fn two_pow(n: nat) -> nat
    decreases n,
{
    if n == 0 {
        1
    } else {
        2 * two_pow((n - 1) as nat)
    }
}

/// The wait, in seconds, after failed attempt `attempt` (counted from 1).
pub open spec fn delay_spec(attempt: nat) -> nat
    recommends
        attempt >= 1,
{
    two_pow((attempt - 1) as nat)
}

/// `2^n` grows with `n`.
pub proof fn lemma_two_pow_monotone(a: nat, b: nat)
    requires
        a <= b,
    ensures
        two_pow(a) <= two_pow(b),
    decreases b - a,
{
    if a < b {
        lemma_two_pow_monotone(a, (b - 1) as nat);
    }
}

/// The largest power of two that a `u64` holds.
pub proof fn lemma_two_pow_63()
    ensures
        two_pow(63) == 0x8000_0000_0000_0000,
{
    reveal_with_fuel(two_pow, 64);
}

/// Seconds to wait after failed attempt `attempt` (1-based): `2^(attempt - 1)`.
pub fn backoff_delay_secs(attempt: u32) -> (r: u64)
    requires
        1 <= attempt <= 64,
    ensures
        r as nat == delay_spec(attempt as nat),
{
    let mut d: u64 = 1;
    let mut i: u32 = 1;
    while i < attempt
        invariant
            1 <= i <= attempt <= 64,
            d as nat == two_pow((i - 1) as nat),
        decreases attempt - i,
    {
        proof {
            lemma_two_pow_monotone(i as nat, 63);
            lemma_two_pow_63();
        }
        d = d * 2;
        i = i + 1;
    }
    d
}

} // verus!
