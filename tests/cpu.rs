use hostbench::cpu::run_cpu_benchmark;

#[test]
fn cpu_probe_records_what_it_ran() {
    let r = run_cpu_benchmark(1000, 10, 2, 5);
    assert_eq!(r.core_count, 2);
    assert_eq!(r.prime_count, 10);
    assert_eq!(r.single_core_monte_carlo.samples, 1000);
    assert!(r.single_core_monte_carlo.hits <= 1000);
    assert_eq!(r.multi_core_monte_carlo.workers(), 2);
    assert_eq!(r.multi_core_monte_carlo.samples_per_worker, 500);
    assert_eq!(r.single_core_primes_found, 10);
    assert_eq!(r.multi_core_primes_found, 40);
}

#[test]
fn cpu_probe_zero_cores_counts_as_one() {
    let r = run_cpu_benchmark(100, 0, 0, 1);
    assert_eq!(r.core_count, 1);
    assert_eq!(r.multi_core_monte_carlo.workers(), 1);
    assert_eq!(r.multi_core_monte_carlo.samples_per_worker, 50);
    assert_eq!(r.single_core_primes_found, 0);
    assert_eq!(r.multi_core_primes_found, 0);
}
