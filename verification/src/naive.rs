//! Trial division by every candidate, with three choices of where to stop.

use vstd::prelude::*;
use crate::arith::{
    divides,
    has_divisor_in,
    lemma_small_cases,
    lemma_trial_division_suffices,
};
use crate::isqrt::integer_sqrt;
use crate::oracle::Primality;

verus! {

/// Tries every number in `2..=max` as a divisor of `n`, and says whether all
/// of them failed.
fn no_divisor_up_to(n: u64, max: u64) -> (none: bool)
    requires
        max < u64::MAX,
    ensures
        none == !has_divisor_in(n as nat, 2, max as nat),
{
    let mut i: u64 = 2;
    while i <= max
        invariant
            max < u64::MAX,
            2 <= i,
            i <= max + 1 || max < 2,
            forall|d: nat| 2 <= d < i ==> !#[trigger] divides(d, n as nat),
        decreases max + 1 - i,
    {
        if n % i == 0 {
            assert(divides(i as nat, n as nat));
            return false;
        }
        i = i + 1;
    }
    true
}

/// Trial division by every number below the one in question.
pub struct NaivePrimality;

impl Primality for NaivePrimality {
    /// Every number may be asked about.
    open spec fn answers(&self, n: u64) -> bool {
        true
    }

    fn is_prime(&self, n: u64) -> (r: bool) {
        proof {
            lemma_small_cases();
        }
        match n {
            0 | 1 => false,
            2 => true,
            n => {
                let max = n - 1;
                proof {
                    assert(n < (max + 1) * (max + 1)) by (nonlinear_arith)
                        requires
                            n >= 3,
                            max == n - 1,
                    ;
                    lemma_trial_division_suffices(n as nat, max as nat);
                }
                no_divisor_up_to(n, max)
            },
        }
    }
}

/// Trial division up to half of the number: no proper divisor is larger.
pub struct NaivePrimalityWithRangeLimit;

impl Primality for NaivePrimalityWithRangeLimit {
    /// Every number may be asked about.
    open spec fn answers(&self, n: u64) -> bool {
        true
    }

    fn is_prime(&self, n: u64) -> (r: bool) {
        proof {
            lemma_small_cases();
        }
        match n {
            0 | 1 => false,
            2 => true,
            n => {
                let max = n / 2;
                proof {
                    assert(n < (max + 1) * (max + 1)) by (nonlinear_arith)
                        requires
                            n >= 3,
                            n <= 2 * max + 1,
                    ;
                    lemma_trial_division_suffices(n as nat, max as nat);
                }
                no_divisor_up_to(n, max)
            },
        }
    }
}

/// Trial division up to one past the integer square root of the number.
pub struct NaivePrimalityWithNonLinearRangeLimit;

impl Primality for NaivePrimalityWithNonLinearRangeLimit {
    /// Every number may be asked about.
    open spec fn answers(&self, n: u64) -> bool {
        true
    }

    fn is_prime(&self, n: u64) -> (r: bool) {
        proof {
            lemma_small_cases();
        }
        match n {
            0 | 1 => false,
            2 => true,
            n => {
                let root = integer_sqrt(n);
                let max = root + 1;
                proof {
                    assert(max < n && n < (max + 1) * (max + 1)) by (nonlinear_arith)
                        requires
                            n >= 3,
                            max == root + 1,
                            root * root <= n < (root + 1) * (root + 1),
                    ;
                    lemma_trial_division_suffices(n as nat, max as nat);
                }
                no_divisor_up_to(n, max)
            },
        }
    }
}

} // verus!
