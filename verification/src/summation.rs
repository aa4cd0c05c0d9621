//! The sum of the primes below a bound, by whichever oracle is at hand.

use vstd::prelude::*;
use crate::arith::prime;
use crate::oracle::Primality;

verus! {

/// The bound below which the primes are summed when nothing else is asked.
pub const UPPER_BOUND: u64 = 2_000_000;

/// What `n` adds to a sum of primes: itself if it is prime, nothing if not.
pub open spec fn prime_or_zero(n: nat) -> nat {
    if prime(n) {
        n
    } else {
        0
    }
}

/// The sum of all primes strictly below `bound`.
pub open spec fn sum_of_primes_below(bound: nat) -> nat
    decreases bound,
{
    if bound == 0 {
        0
    } else {
        sum_of_primes_below((bound - 1) as nat) + prime_or_zero((bound - 1) as nat)
    }
}

/// Raising the bound never lowers the sum.
pub proof fn lemma_sum_is_monotonic(lower: nat, upper: nat)
    requires
        lower <= upper,
    ensures
        sum_of_primes_below(lower) <= sum_of_primes_below(upper),
    decreases upper,
{
    if lower < upper {
        lemma_sum_is_monotonic(lower, (upper - 1) as nat);
    }
}

/// For a bound of at most 2^32 every term fits in 32 bits, and there are at
/// most 2^32 of them: the sum fits in 64 bits.
pub proof fn lemma_sum_fits(bound: nat)
    requires
        bound <= 0x1_0000_0000,
    ensures
        sum_of_primes_below(bound) <= bound * 0xFFFF_FFFF,
        sum_of_primes_below(bound) <= u64::MAX,
    decreases bound,
{
    if bound > 0 {
        lemma_sum_fits((bound - 1) as nat);
    }
}

/// Sums the numbers in `1..bound` that `oracle` reports prime.
///
/// The result is the sum of the primes below `bound`, whichever oracle is
/// handed in. It must fit in 64 bits. For a bound of at most 2^32 it always
/// does, as [`lemma_sum_fits`] shows, so that such a bound needs no proof
/// from the caller.
pub fn sum_primes_below<P: Primality>(oracle: &P, bound: u64) -> (sum: u64)
    requires
        forall|n: u64| 1 <= n < bound ==> #[trigger] oracle.answers(n),
        bound <= 0x1_0000_0000 || sum_of_primes_below(bound as nat) <= u64::MAX,
    ensures
        sum == sum_of_primes_below(bound as nat),
{
    if bound == 0 {
        return 0;
    }
    let mut sum: u64 = 0;
    let mut n: u64 = 1;
    proof {
        reveal_with_fuel(sum_of_primes_below, 2);
        if bound <= 0x1_0000_0000 {
            lemma_sum_fits(bound as nat);
        }
    }
    while n < bound
        invariant
            1 <= n <= bound,
            sum == sum_of_primes_below(n as nat),
            forall|n: u64| 1 <= n < bound ==> #[trigger] oracle.answers(n),
            sum_of_primes_below(bound as nat) <= u64::MAX,
        decreases bound - n,
    {
        if oracle.is_prime(n) {
            proof {
                lemma_sum_is_monotonic((n + 1) as nat, bound as nat);
            }
            sum = sum + n;
        }
        n = n + 1;
    }
    sum
}

/// The sum does not depend on the oracle that was asked: two runs up to the
/// same bound, each with an oracle of its own kind, end on the same number.
pub proof fn lemma_sum_is_the_same_by_any_oracle<P: Primality, Q: Primality>(
    p: &P,
    q: &Q,
    bound: u64,
    by_p: u64,
    by_q: u64,
)
    requires
        call_ensures(sum_primes_below::<P>, (p, bound), by_p),
        call_ensures(sum_primes_below::<Q>, (q, bound), by_q),
    ensures
        by_p == by_q,
{
}

} // verus!
