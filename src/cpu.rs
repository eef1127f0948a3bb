//! The CPU probe: Monte Carlo estimation of pi and enumeration of primes,
//! each on one thread and then on all workers, with the wall time of each.

use vstd::prelude::*;
use std::time::Instant;
use crate::clock::nanos_since;
use crate::monte_carlo::{
    ParallelPiEstimate,
    PiEstimate,
    effective_workers,
    estimate_pi,
    inside_count,
    is_parallel_estimate,
    parallel_estimate_pi,
};
use crate::primes::{calculate_primes_parallel, calculate_primes_single, prime_list_len};

verus! {

/// What the CPU probe measured. Times are wall-clock nanoseconds.
pub struct CpuResult {
    pub single_core_monte_carlo: PiEstimate,
    pub single_core_monte_carlo_nanos: u64,
    pub multi_core_monte_carlo: ParallelPiEstimate,
    pub multi_core_monte_carlo_nanos: u64,
    pub single_core_primes_found: usize,
    pub single_core_primes_nanos: u64,
    pub multi_core_primes_found: usize,
    pub multi_core_primes_nanos: u64,
    pub core_count: usize,
    pub prime_count: usize,
}

/// The samples of the parallel Monte Carlo phase: half the single-thread
/// count for each worker, capped at `u64::MAX`.
pub open spec fn multi_core_iterations(base: u64, workers: nat) -> int {
    if base * workers / 2 > u64::MAX {
        u64::MAX as int
    } else {
        base * workers / 2
    }
}

/// The primes of the parallel prime phase: four times the single-thread
/// count, capped at `usize::MAX`.
pub open spec fn multi_core_prime_count(prime_count: usize) -> int {
    if 4 * prime_count > usize::MAX {
        usize::MAX as int
    } else {
        4 * prime_count
    }
}

/// Runs the four CPU workloads one after another: pi from
/// `base_iterations` samples on one thread, pi from
/// `multi_core_iterations` samples over the workers, the first
/// `prime_count` primes on one thread, and the first
/// `multi_core_prime_count` primes over the workers. A core count of 0
/// counts as 1. Every random stream derives from `seed`.
pub fn run_cpu_benchmark(base_iterations: u64, prime_count: usize, core_count: usize, seed: u64) -> (r:
    CpuResult)
    ensures
        r.core_count == effective_workers(core_count),
        r.prime_count == prime_count,
        r.single_core_monte_carlo.wf(),
        r.single_core_monte_carlo.samples == base_iterations,
        r.single_core_monte_carlo.hits == inside_count(seed, base_iterations as nat),
        is_parallel_estimate(
            r.multi_core_monte_carlo,
            multi_core_iterations(base_iterations, r.core_count as nat) as u64,
            r.core_count,
            seed,
        ),
        r.multi_core_monte_carlo.wf(),
        r.multi_core_monte_carlo.worker_hits@.len() == r.core_count,
        r.multi_core_monte_carlo.samples_per_worker == multi_core_iterations(
            base_iterations,
            r.core_count as nat,
        ) / (r.core_count as int),
        r.single_core_primes_found == prime_list_len(prime_count as nat),
        r.multi_core_primes_found == prime_list_len(multi_core_prime_count(prime_count) as nat),
{
    let cores: usize = if core_count == 0 {
        1
    } else {
        core_count
    };

    let start = Instant::now();
    let single = estimate_pi(base_iterations, seed);
    let single_nanos = nanos_since(&start);

    proof {
        assert(base_iterations * cores <= 0xffff_ffff_ffff_ffff * 0xffff_ffff_ffff_ffff)
            by (nonlinear_arith)
            requires
                cores <= 0xffff_ffff_ffff_ffffu64,
                base_iterations <= 0xffff_ffff_ffff_ffffu64,
        ;
    }
    let product: u128 = base_iterations as u128 * cores as u128;
    let half: u128 = product / 2;
    let multi_iterations: u64 = if half > u64::MAX as u128 {
        u64::MAX
    } else {
        half as u64
    };
    let start = Instant::now();
    let multi = parallel_estimate_pi(multi_iterations, cores, seed);
    let multi_nanos = nanos_since(&start);

    let start = Instant::now();
    let primes_single = calculate_primes_single(prime_count);
    let primes_single_nanos = nanos_since(&start);

    let multi_count: usize = if prime_count > usize::MAX / 4 {
        usize::MAX
    } else {
        4 * prime_count
    };
    let start = Instant::now();
    let primes_multi = calculate_primes_parallel(multi_count, cores);
    let primes_multi_nanos = nanos_since(&start);

    CpuResult {
        single_core_monte_carlo: single,
        single_core_monte_carlo_nanos: single_nanos,
        multi_core_monte_carlo: multi,
        multi_core_monte_carlo_nanos: multi_nanos,
        single_core_primes_found: primes_single.len(),
        single_core_primes_nanos: primes_single_nanos,
        multi_core_primes_found: primes_multi.len(),
        multi_core_primes_nanos: primes_multi_nanos,
        core_count: cores,
        prime_count,
    }
}

} // verus!
