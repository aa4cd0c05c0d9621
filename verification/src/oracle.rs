//! The capability that every primality strategy offers.

use vstd::prelude::*;
use crate::arith::prime;

verus! {

/// An oracle that tells whether a number is prime.
pub trait Primality {
    /// The numbers this oracle may be asked about.
    spec fn answers(&self, n: u64) -> bool;

    /// Whether `n` is prime.
    fn is_prime(&self, n: u64) -> (r: bool)
        requires
            self.answers(n),
        ensures
            r == prime(n as nat),
    ;
}

/// Two oracles, of whatever kind, give the same answer about the same
/// number.
pub proof fn lemma_oracles_agree<P: Primality, Q: Primality>(
    p: &P,
    q: &Q,
    n: u64,
    by_p: bool,
    by_q: bool,
)
    requires
        call_ensures(P::is_prime, (p, n), by_p),
        call_ensures(Q::is_prime, (q, n), by_q),
    ensures
        by_p == by_q,
{
}

/// Asking one oracle twice about one number gives one answer.
pub proof fn lemma_answers_repeat<P: Primality>(p: &P, n: u64, first: bool, second: bool)
    requires
        call_ensures(P::is_prime, (p, n), first),
        call_ensures(P::is_prime, (p, n), second),
    ensures
        first == second,
{
}

} // verus!
