//! Divisibility and primality over the natural numbers, and the facts about
//! divisors that justify cutting a trial division short.

use vstd::prelude::*;
use vstd::arithmetic::div_mod::lemma_fundamental_div_mod;

verus! {

/// `d` divides `n`: `n` is a multiple of the non-zero number `d`.
pub open spec fn divides(d: nat, n: nat) -> bool {
    d != 0 && n % d == 0
}

/// `n` is prime: it is at least 2 and nothing strictly between 1 and `n`
/// divides it.
pub open spec fn prime(n: nat) -> bool {
    n >= 2 && forall|d: nat| 1 < d < n ==> !#[trigger] divides(d, n)
}

/// Some number in `lo..=hi` divides `n`.
pub open spec fn has_divisor_in(n: nat, lo: nat, hi: nat) -> bool {
    exists|d: nat| lo <= d <= hi && #[trigger] divides(d, n)
}

/// Some odd number in `lo..=hi` divides `n`.
pub open spec fn has_odd_divisor_in(n: nat, lo: nat, hi: nat) -> bool {
    exists|d: nat| lo <= d <= hi && d % 2 == 1 && #[trigger] divides(d, n)
}

/// A divisor comes with a cofactor: `d * (n / d) == n`, and the cofactor
/// divides `n` too. For a proper divisor (`1 < d < n`) the cofactor is a
/// proper divisor as well.
pub proof fn lemma_cofactor(n: nat, d: nat)
    requires
        divides(d, n),
    ensures
        d * (n / d) == n,
        n > 0 ==> divides(n / d, n),
        1 < d < n ==> 1 < n / d < n,
{
    let q = n / d;
    lemma_fundamental_div_mod(n as int, d as int);
    assert(d * q == n);
    if n > 0 {
        assert(q != 0) by (nonlinear_arith)
            requires
                d * q == n,
                n > 0,
        ;
        assert(n % q == 0) by (nonlinear_arith)
            requires
                d * q == n,
                q > 0,
        ;
    }
    if 1 < d < n {
        assert(1 < q < n) by (nonlinear_arith)
            requires
                d * q == n,
                1 < d < n,
        ;
    }
}

/// A product is even as soon as one factor is: both factors of an odd
/// number are odd.
pub proof fn lemma_factors_of_odd_are_odd(n: nat, d: nat, q: nat)
    requires
        d * q == n,
        n % 2 == 1,
    ensures
        d % 2 == 1,
        q % 2 == 1,
{
    if d % 2 == 0 {
        let k = d / 2;
        assert(n == 2 * (k * q)) by (nonlinear_arith)
            requires
                d == 2 * k,
                d * q == n,
        ;
    }
    if q % 2 == 0 {
        let k = q / 2;
        assert(n == 2 * (d * k)) by (nonlinear_arith)
            requires
                q == 2 * k,
                d * q == n,
        ;
    }
}

/// The smallest cases: 0, 1 and 4 are not prime, 2 and 3 are.
pub proof fn lemma_small_cases()
    ensures
        !prime(0),
        !prime(1),
        prime(2),
        prime(3),
        !prime(4),
{
    assert(divides(2, 4));
}

/// An even number above 2 is not prime: 2 divides it.
pub proof fn lemma_even_above_two_is_composite(n: nat)
    requires
        n > 2,
        n % 2 == 0,
    ensures
        !prime(n),
{
    assert(divides(2, n));
}

/// Of a proper divisor and its cofactor, the smaller one squared does not
/// exceed `n`. So trial division may stop at any `hi` below `n` whose
/// successor squared exceeds `n`: `n >= 2` is prime exactly if nothing in
/// `2..=hi` divides it.
pub proof fn lemma_trial_division_suffices(n: nat, hi: nat)
    requires
        n >= 2,
        hi < n,
        n < (hi + 1) * (hi + 1),
    ensures
        prime(n) == !has_divisor_in(n, 2, hi),
{
    if !prime(n) {
        let d = choose|d: nat| 1 < d < n && #[trigger] divides(d, n);
        let q = n / d;
        lemma_cofactor(n, d);
        let e = if d <= q { d } else { q };
        assert(e <= hi) by (nonlinear_arith)
            requires
                d * q == n,
                n < (hi + 1) * (hi + 1),
                e == d || e == q,
                e <= d,
                e <= q,
        ;
        assert(2 <= e <= hi && divides(e, n));
    }
}

/// Every proper divisor of an odd number is odd, and so is its cofactor,
/// which is therefore at least 3. So for an odd `n >= 3` it is enough to try
/// the odd numbers from 3 up to any `hi` below `n` that reaches `n / 3`.
pub proof fn lemma_odd_trial_division_to_third_suffices(n: nat, hi: nat)
    requires
        n >= 3,
        n % 2 == 1,
        n / 3 <= hi < n,
    ensures
        prime(n) == !has_odd_divisor_in(n, 3, hi),
{
    if !prime(n) {
        let d = choose|d: nat| 1 < d < n && #[trigger] divides(d, n);
        let q = n / d;
        lemma_cofactor(n, d);
        lemma_factors_of_odd_are_odd(n, d, q);
        assert(3 * d <= n) by (nonlinear_arith)
            requires
                d * q == n,
                q >= 3,
        ;
        assert(3 <= d <= hi && d % 2 == 1 && divides(d, n));
    }
}

/// For an odd `n >= 3` it is enough to try the odd numbers from 3 up to any
/// `hi` below `n` whose successor squared exceeds `n`.
pub proof fn lemma_odd_trial_division_suffices(n: nat, hi: nat)
    requires
        n >= 3,
        n % 2 == 1,
        hi < n,
        n < (hi + 1) * (hi + 1),
    ensures
        prime(n) == !has_odd_divisor_in(n, 3, hi),
{
    lemma_trial_division_suffices(n, hi);
    if has_divisor_in(n, 2, hi) {
        let d = choose|d: nat| 2 <= d <= hi && #[trigger] divides(d, n);
        lemma_cofactor(n, d);
        lemma_factors_of_odd_are_odd(n, d, n / d);
        assert(3 <= d <= hi && d % 2 == 1 && divides(d, n));
    }
    if has_odd_divisor_in(n, 3, hi) {
        let d = choose|d: nat| 3 <= d <= hi && d % 2 == 1 && #[trigger] divides(d, n);
        assert(2 <= d <= hi && divides(d, n));
    }
}

} // verus!
