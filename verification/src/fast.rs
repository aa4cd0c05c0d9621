//! Trial division by odd candidates only.

use vstd::prelude::*;
use crate::arith::{
    divides,
    has_odd_divisor_in,
    lemma_even_above_two_is_composite,
    lemma_odd_trial_division_suffices,
    lemma_odd_trial_division_to_third_suffices,
    lemma_small_cases,
};
use crate::isqrt::integer_sqrt;
use crate::oracle::Primality;
use crate::test_range::{lemma_odd_candidates, odd_candidates, TestRange};

verus! {

/// Tries every odd number in `3..=limit` as a divisor of the odd number `n`,
/// and says whether all of them failed.
fn no_odd_divisor_up_to(n: u64, limit: u64) -> (none: bool)
    requires
        n % 2 == 1,
    ensures
        none == !has_odd_divisor_in(n as nat, 3, limit as nat),
{
    let mut range = TestRange::new(limit);
    let ghost all = odd_candidates(limit as nat);
    let ghost mut tried: int = 0;
    proof {
        lemma_odd_candidates(limit as nat);
        assert(all.skip(0) =~= all);
    }
    loop
        invariant
            all == odd_candidates(limit as nat),
            0 <= tried <= all.len(),
            range@ == all.skip(tried),
            forall|i: int| 0 <= i < tried ==> !divides(#[trigger] all[i], n as nat),
            forall|i: int|
                0 <= i < all.len() ==> {
                    let c = #[trigger] all[i];
                    3 <= c <= limit && c % 2 == 1
                },
            forall|d: nat| 3 <= d <= limit && d % 2 == 1 ==> #[trigger] all.contains(d),
        decreases all.len() - tried,
    {
        match range.next() {
            Some(i) => {
                assert(i == all[tried]);
                if n % i == 0 {
                    assert(divides(i as nat, n as nat));
                    return false;
                }
                proof {
                    assert(all.skip(tried).drop_first() =~= all.skip(tried + 1));
                    tried = tried + 1;
                }
            },
            None => {
                assert forall|d: nat| 3 <= d <= limit && d % 2 == 1 implies !#[trigger] divides(
                    d,
                    n as nat,
                ) by {
                    assert(all.contains(d));
                }
                return true;
            },
        }
    }
}

/// Odd-only trial division up to a third of the number.
pub struct FastLinearPrimality;

impl Primality for FastLinearPrimality {
    /// Every number may be asked about.
    open spec fn answers(&self, n: u64) -> bool {
        true
    }

    /// Whether `n` is prime. An even `n` is answered at once, before any
    /// division.
    fn is_prime(&self, n: u64) -> (r: bool)
        ensures
            n > 2 && n % 2 == 0 ==> !r,
    {
        proof {
            lemma_small_cases();
        }
        match n {
            0 | 1 => false,
            2 | 3 => true,
            n if n & 1 == 0 => {
                proof {
                    assert(n & 1 == n % 2) by (bit_vector);
                    lemma_even_above_two_is_composite(n as nat);
                }
                false
            },
            n => {
                let max = n / 3;
                proof {
                    assert(n & 1 == n % 2) by (bit_vector);
                    lemma_odd_trial_division_to_third_suffices(n as nat, max as nat);
                }
                no_odd_divisor_up_to(n, max)
            },
        }
    }
}

/// Odd-only trial division up to the square root of the number.
pub struct FastNonLinearPrimality;

impl Primality for FastNonLinearPrimality {
    /// Every number may be asked about.
    open spec fn answers(&self, n: u64) -> bool {
        true
    }

    /// Whether `n` is prime. An even `n` is answered at once, before any
    /// division.
    fn is_prime(&self, n: u64) -> (r: bool)
        ensures
            n > 2 && n % 2 == 0 ==> !r,
    {
        proof {
            lemma_small_cases();
        }
        match n {
            0 | 1 => false,
            2 | 3 => true,
            n if n & 1 == 0 => {
                proof {
                    assert(n & 1 == n % 2) by (bit_vector);
                    lemma_even_above_two_is_composite(n as nat);
                }
                false
            },
            n => {
                let root = integer_sqrt(n);
                let max = root + 1;
                proof {
                    assert(n & 1 == n % 2) by (bit_vector);
                    assert(max < n && n < (max + 1) * (max + 1)) by (nonlinear_arith)
                        requires
                            n >= 5,
                            max == root + 1,
                            root * root <= n < (root + 1) * (root + 1),
                    ;
                    lemma_odd_trial_division_suffices(n as nat, max as nat);
                }
                no_odd_divisor_up_to(n, max)
            },
        }
    }
}

} // verus!
