use rust_evc::utils::is_prime;
use rust_evc::utils::nth_prime;

#[test]
fn test_is_prime() {
    assert!(!is_prime(100));
    assert!(is_prime(17));
    assert!(!is_prime(12));
}

#[test]
fn test_nth_prime() {
    assert_eq!(nth_prime(10), 29);
    assert_eq!(nth_prime(100), 541);
}

#[test]
fn nth_prime_reference_values() {
    assert_eq!(nth_prime(1), 2);
    assert_eq!(nth_prime(15), 47);
    assert_eq!(nth_prime(100), 541);
}

#[test]
fn is_prime_small_cases() {
    assert!(!is_prime(0));
    assert!(!is_prime(1));
    assert!(is_prime(2));
    assert!(is_prime(3));
    assert!(!is_prime(4));
    assert!(is_prime(5));
    assert!(is_prime(25013));
    assert!(!is_prime(25015));
}

#[test]
fn consecutive_nth_primes_are_distinct() {
    let mut last: u64 = 1;
    for n in 1..=25u64 {
        let p = nth_prime(n);
        assert!(p > last);
        assert!(is_prime(p));
        last = p;
    }
}
