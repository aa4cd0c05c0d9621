use primality::{
    FastLinearPrimality, FastNonLinearPrimality, NaivePrimality,
    NaivePrimalityWithNonLinearRangeLimit, NaivePrimalityWithRangeLimit, Primality,
    SievePrimality,
};

#[test]
fn naive_primality_works() {
    let naive = NaivePrimality;
    let sieve = SievePrimality::new(1000);

    for i in 1..=1000 {
        assert_eq!(
            naive.is_prime(i),
            sieve.is_prime(i),
            "Incorrect for: {}", i
        );
    }
}

#[test]
fn naive_with_range_limit_works() {
    let naive = NaivePrimalityWithRangeLimit;
    let sieve = SievePrimality::new(1000);

    for i in 1..=1000 {
        assert_eq!(
            naive.is_prime(i),
            sieve.is_prime(i),
            "Incorrect for: {}", i
        );
    }
}

#[test]
fn fast_linear_primality_works() {
    let naive = FastLinearPrimality;
    let sieve = SievePrimality::new(1000);

    for i in 1..=1000 {
        assert_eq!(
            naive.is_prime(i),
            sieve.is_prime(i),
            "Incorrect for: {}", i
        );
    }
}

#[test]
fn naive_with_nonlinear_range_limit_works() {
    let naive = NaivePrimalityWithNonLinearRangeLimit;
    let sieve = SievePrimality::new(1000);

    for i in 1..=1000 {
        assert_eq!(
            naive.is_prime(i),
            sieve.is_prime(i),
            "Incorrect for: {}", i
        );
    }
}

#[test]
fn fast_nonlinear_primality_works() {
    let naive = FastNonLinearPrimality;
    let sieve = SievePrimality::new(1000);

    for i in 1..=1000 {
        assert_eq!(
            naive.is_prime(i),
            sieve.is_prime(i),
            "Incorrect for: {}", i
        );
    }
}

#[test]
fn strategies_agree_pairwise_up_to_1000() {
    let a = NaivePrimality;
    let b = NaivePrimalityWithRangeLimit;
    let c = FastLinearPrimality;
    let d = NaivePrimalityWithNonLinearRangeLimit;
    let e = FastNonLinearPrimality;
    for n in 0..=1000u64 {
        let expected = a.is_prime(n);
        assert_eq!(b.is_prime(n), expected, "range limit, {}", n);
        assert_eq!(c.is_prime(n), expected, "fast linear, {}", n);
        assert_eq!(d.is_prime(n), expected, "nonlinear, {}", n);
        assert_eq!(e.is_prime(n), expected, "fast nonlinear, {}", n);
    }
}

#[test]
fn fast_strategies_agree_with_a_larger_sieve() {
    let sieve = SievePrimality::new(200_000);
    let d = NaivePrimalityWithNonLinearRangeLimit;
    let e = FastNonLinearPrimality;
    for n in 0..=200_000u64 {
        let expected = sieve.is_prime(n);
        assert_eq!(d.is_prime(n), expected, "nonlinear, {}", n);
        assert_eq!(e.is_prime(n), expected, "fast nonlinear, {}", n);
    }
}

#[test]
fn answers_do_not_change_when_asked_again() {
    let sieve = SievePrimality::new(1000);
    let fast = FastNonLinearPrimality;
    for n in 1..=1000u64 {
        let first = sieve.is_prime(n);
        assert_eq!(sieve.is_prime(n), first);
        assert_eq!(sieve.is_prime(n), first);
        let first = fast.is_prime(n);
        assert_eq!(fast.is_prime(n), first);
    }
}
