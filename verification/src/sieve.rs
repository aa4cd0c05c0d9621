//! The oracle that looks its answers up in a precomputed sieve.

use vstd::prelude::*;
use primal::Sieve;
use crate::arith::prime;
use crate::oracle::Primality;

verus! {

/// `primal::Sieve`, a table of the primes up to a bound. Nothing of its
/// layout is known here.
#[verifier::external_type_specification]
#[verifier::external_body]
pub struct ExSieve(Sieve);

/// The largest number that `sieve` knows about: what
/// `primal::Sieve::upper_bound` returns for it.
pub uninterp spec fn sieve_upper_bound(sieve: Sieve) -> usize;

/// Calls `primal::Sieve::new`. Believed of it: the sieve it builds knows
/// about every number up to `limit`, and possibly a few more.
#[verifier::external_body]
fn build_sieve(limit: usize) -> (sieve: Sieve)
    ensures
        sieve_upper_bound(sieve) >= limit,
{
    Sieve::new(limit)
}

/// Calls `primal::Sieve::upper_bound`, which returns the largest number
/// that the sieve knows about.
#[verifier::external_body]
fn largest_known(sieve: &Sieve) -> (bound: usize)
    ensures
        bound == sieve_upper_bound(*sieve),
{
    sieve.upper_bound()
}

/// Calls `primal::Sieve::is_prime`. Believed of it: for a number that the
/// sieve knows about, it tells whether that number is prime. Beyond the
/// sieve's upper bound it panics, so such a number is not admitted.
#[verifier::external_body]
fn look_up(sieve: &Sieve, n: usize) -> (r: bool)
    requires
        n <= sieve_upper_bound(*sieve),
    ensures
        r == prime(n as nat),
{
    sieve.is_prime(n)
}

/// A primality oracle backed by a sieve that is built once and then only
/// read.
pub struct SievePrimality(Sieve);

impl SievePrimality {
    /// The largest number this oracle may be asked about.
    pub closed spec fn reach(&self) -> nat {
        sieve_upper_bound(self.0) as nat
    }

    /// An oracle for the numbers up to `limit` at least.
    pub fn new(limit: u64) -> (oracle: SievePrimality)
        requires
            limit <= usize::MAX,
        ensures
            oracle.reach() >= limit,
    {
        SievePrimality(build_sieve(limit as usize))
    }

    /// The largest number this oracle may be asked about.
    pub fn upper_bound(&self) -> (bound: u64)
        ensures
            bound == self.reach(),
    {
        largest_known(&self.0) as u64
    }

    /// Whether `n` is prime, or `None` where `n` lies beyond what the sieve
    /// knows.
    pub fn checked_is_prime(&self, n: u64) -> (r: Option<bool>)
        ensures
            r == if n <= self.reach() {
                Some(prime(n as nat))
            } else {
                None
            },
    {
        if n <= self.upper_bound() {
            Some(self.is_prime(n))
        } else {
            None
        }
    }
}

impl Primality for SievePrimality {
    /// The numbers up to the sieve's upper bound may be asked about.
    open spec fn answers(&self, n: u64) -> bool {
        n <= self.reach()
    }

    fn is_prime(&self, n: u64) -> (r: bool) {
        look_up(&self.0, n as usize)
    }
}

} // verus!
