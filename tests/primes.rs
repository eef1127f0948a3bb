use hostbench::primes::{calculate_primes_parallel, calculate_primes_single, is_prime};

fn sieve(limit: usize) -> Vec<bool> {
    let mut prime = vec![true; limit + 1];
    prime[0] = false;
    if limit >= 1 {
        prime[1] = false;
    }
    let mut i = 2;
    while i * i <= limit {
        if prime[i] {
            let mut j = i * i;
            while j <= limit {
                prime[j] = false;
                j += i;
            }
        }
        i += 1;
    }
    prime
}

#[test]
fn is_prime_small_values() {
    assert!(!is_prime(0));
    assert!(!is_prime(1));
    assert!(is_prime(2));
    assert!(is_prime(3));
    assert!(!is_prime(4));
    assert!(is_prime(5));
    assert!(!is_prime(25));
    assert!(!is_prime(49));
    assert!(is_prime(7919));
}

#[test]
fn is_prime_agrees_with_sieve_up_to_a_million() {
    let limit = 1_000_000;
    let truth = sieve(limit);
    for n in 0..=limit {
        assert_eq!(is_prime(n as u64), truth[n], "n = {}", n);
    }
}

#[test]
fn is_prime_large_values() {
    assert!(is_prime(1_000_000_007));
    assert!(!is_prime(1_000_000_007u64 * 3));
    assert!(is_prime(18446744073709551557));
    assert!(!is_prime(u64::MAX));
    assert!(!is_prime(4294967291u64 * 4294967279u64));
}

fn check_first_primes(r: &[u64], count: usize) {
    assert_eq!(r.len(), count);
    if count > 0 {
        assert_eq!(r[0], 2);
    }
    for w in r.windows(2) {
        assert!(w[0] < w[1]);
    }
    for &p in r {
        assert!(is_prime(p));
    }
}

#[test]
fn primes_single_zero_one_hundred() {
    check_first_primes(&calculate_primes_single(0), 0);
    assert_eq!(calculate_primes_single(1), vec![2]);
    let hundred = calculate_primes_single(100);
    check_first_primes(&hundred, 100);
    assert_eq!(hundred[99], 541);
    let truth = sieve(541);
    let expected: Vec<u64> = (0..=541u64).filter(|&n| truth[n as usize]).collect();
    assert_eq!(hundred, expected);
}

#[test]
fn primes_single_first_ten() {
    assert_eq!(calculate_primes_single(10), vec![2, 3, 5, 7, 11, 13, 17, 19, 23, 29]);
}

#[test]
fn primes_parallel_matches_single() {
    for &workers in &[1usize, 2, 3, 4, 7] {
        for &count in &[0usize, 1, 2, 10, 100, 1000] {
            assert_eq!(
                calculate_primes_parallel(count, workers),
                calculate_primes_single(count),
                "count {} workers {}",
                count,
                workers
            );
        }
    }
}

#[test]
fn primes_parallel_zero_workers_counts_as_one() {
    assert_eq!(calculate_primes_parallel(25, 0), calculate_primes_single(25));
}
