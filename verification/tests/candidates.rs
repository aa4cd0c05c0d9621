use primality::{integer_sqrt, TestRange};

fn drain(limit: u64) -> Vec<u64> {
    let mut range = TestRange::new(limit);
    let mut out = Vec::new();
    while let Some(c) = range.next() {
        out.push(c);
    }
    assert_eq!(range.next(), None);
    out
}

#[test]
fn test_range_yields_odd_numbers_from_three() {
    assert_eq!(drain(10), vec![3, 5, 7, 9]);
    assert_eq!(drain(9), vec![3, 5, 7, 9]);
    assert_eq!(drain(8), vec![3, 5, 7]);
    assert_eq!(drain(3), vec![3]);
    assert_eq!(drain(4), vec![3]);
}

#[test]
fn test_range_is_empty_below_three() {
    assert_eq!(drain(0), Vec::<u64>::new());
    assert_eq!(drain(1), Vec::<u64>::new());
    assert_eq!(drain(2), Vec::<u64>::new());
}

#[test]
fn test_range_starts_afresh_each_time() {
    let mut first = TestRange::new(7);
    assert_eq!(first.next(), Some(3));
    assert_eq!(first.next(), Some(5));
    let mut second = TestRange::new(7);
    assert_eq!(second.next(), Some(3));
    assert_eq!(first.next(), Some(7));
    assert_eq!(first.next(), None);
    assert_eq!(first.next(), None);
}

#[test]
fn test_range_length_matches_the_formula() {
    for limit in 3..200u64 {
        assert_eq!(drain(limit).len() as u64, (limit - 3) / 2 + 1);
    }
}

#[test]
fn integer_sqrt_exact_values() {
    assert_eq!(integer_sqrt(0), 0);
    assert_eq!(integer_sqrt(1), 1);
    assert_eq!(integer_sqrt(2), 1);
    assert_eq!(integer_sqrt(3), 1);
    assert_eq!(integer_sqrt(4), 2);
    assert_eq!(integer_sqrt(8), 2);
    assert_eq!(integer_sqrt(9), 3);
    assert_eq!(integer_sqrt(15), 3);
    assert_eq!(integer_sqrt(16), 4);
    assert_eq!(integer_sqrt(17), 4);
    assert_eq!(integer_sqrt(1_000_000), 1000);
    assert_eq!(integer_sqrt(999_999), 999);
    assert_eq!(integer_sqrt(u64::MAX), 4_294_967_295);
    assert_eq!(integer_sqrt(4_294_967_295 * 4_294_967_295), 4_294_967_295);
    assert_eq!(integer_sqrt(4_294_967_295 * 4_294_967_295 - 1), 4_294_967_294);
}

#[test]
fn integer_sqrt_brackets_its_argument() {
    for n in 0..20_000u64 {
        let r = integer_sqrt(n);
        assert!(r * r <= n);
        assert!((r + 1) * (r + 1) > n);
    }
}
