//! Monte Carlo estimation of pi: points drawn uniformly in the unit square,
//! counted when they fall inside the quarter disc of radius one.
//!
//! A coordinate is a `u32` read as the fraction `x / 2^32` of `[0, 1)`, so the
//! point `(x, y)` is inside the disc exactly when `x^2 + y^2 <= 2^64`; the
//! test is exact in integer arithmetic. The estimate of a run is
//! `4 * hits / samples`.

use vstd::prelude::*;
use rand::rngs::StdRng;
use rand::{Rng, SeedableRng};
use rayon::prelude::{IntoParallelIterator, ParallelIterator};

verus! {

#[verifier::external_type_specification]
#[verifier::external_body]
pub struct ExStdRng(rand::rngs::StdRng);

/// The `index`-th `u32` (counting from 0) that rand's `StdRng`, seeded by
/// `SeedableRng::seed_from_u64(seed)`, yields through `Rng::gen::<u32>`. The
/// stream depends on the seed alone.
pub uninterp spec fn std_rng_u32(seed: u64, index: nat) -> u32;

/// A seeded generator together with its seed and the number of values
/// drawn from it so far.
pub struct SeededStream {
    rng: StdRng,
    seed: Ghost<u64>,
    drawn: Ghost<nat>,
}

impl SeededStream {
    /// The seed that the generator was made from.
    pub closed spec fn seed_of(&self) -> u64 {
        self.seed@
    }

    /// The values drawn so far.
    pub closed spec fn drawn_of(&self) -> nat {
        self.drawn@
    }

    /// Relies on rand's `SeedableRng::seed_from_u64`: a generator at the
    /// start of the stream that the seed fixes.
    #[verifier::external_body]
    pub fn new(seed: u64) -> (r: SeededStream)
        ensures
            r.seed_of() == seed,
            r.drawn_of() == 0,
    {
        SeededStream { rng: StdRng::seed_from_u64(seed), seed: Ghost(seed), drawn: Ghost(0) }
    }

    /// Relies on rand's `Rng::gen::<u32>` (which takes `next_u32`): the next
    /// value of the stream.
    #[verifier::external_body]
    pub fn next_u32(&mut self) -> (r: u32)
        ensures
            r == std_rng_u32(old(self).seed_of(), old(self).drawn_of()),
            final(self).seed_of() == old(self).seed_of(),
            final(self).drawn_of() == old(self).drawn_of() + 1,
    {
        self.rng.gen()
    }
}

/// Among the first `n` points of the stream of `seed`, point `k` being
/// `(std_rng_u32(seed, 2k), std_rng_u32(seed, 2k + 1))`, how many lie in the
/// quarter disc.
pub open spec fn inside_count(seed: u64, n: nat) -> nat
    decreases n,
{
    if n == 0 {
        0
    } else {
        let k = (n - 1) as nat;
        inside_count(seed, k) + if in_quarter_disc_spec(
            std_rng_u32(seed, 2 * k),
            std_rng_u32(seed, 2 * k + 1),
        ) {
            1nat
        } else {
            0nat
        }
    }
}

/// No more points inside than points drawn.
pub proof fn lemma_inside_count_bound(seed: u64, n: nat)
    ensures
        inside_count(seed, n) <= n,
    decreases n,
{
    if n > 0 {
        lemma_inside_count_bound(seed, (n - 1) as nat);
    }
}

/// The point `(x / 2^32, y / 2^32)` lies in the quarter disc of radius one.
pub open spec fn in_quarter_disc_spec(x: u32, y: u32) -> bool {
    (x as int) * (x as int) + (y as int) * (y as int) <= 0x1_0000_0000_0000_0000
}

/// Tests whether the point `(x / 2^32, y / 2^32)` lies in the quarter disc.
pub fn in_quarter_disc(x: u32, y: u32) -> (r: bool)
    ensures
        r == in_quarter_disc_spec(x, y),
{
    let xx: u128 = x as u128;
    let yy: u128 = y as u128;
    proof {
        assert(xx * xx <= 0xffff_ffff * 0xffff_ffff) by (nonlinear_arith)
            requires
                xx <= 0xffff_ffff,
        ;
        assert(yy * yy <= 0xffff_ffff * 0xffff_ffff) by (nonlinear_arith)
            requires
                yy <= 0xffff_ffff,
        ;
    }
    xx * xx + yy * yy <= 0x1_0000_0000_0000_0000u128
}

/// The sampling loop: `samples` points drawn from a generator seeded with
/// `seed`, and the number of them inside the quarter disc.
pub fn count_hits(seed: u64, samples: u64) -> (hits: u64)
    ensures
        hits == inside_count(seed, samples as nat),
        hits <= samples,
{
    let mut stream = SeededStream::new(seed);
    let mut hits: u64 = 0;
    let mut i: u64 = 0;
    while i < samples
        invariant
            i <= samples,
            hits == inside_count(seed, i as nat),
            hits <= i,
            stream.seed_of() == seed,
            stream.drawn_of() == 2 * i,
        decreases samples - i,
    {
        let x = stream.next_u32();
        let y = stream.next_u32();
        if in_quarter_disc(x, y) {
            hits = hits + 1;
        }
        i = i + 1;
    }
    proof {
        lemma_inside_count_bound(seed, samples as nat);
    }
    hits
}

/// One run of the sampler: the estimate of pi is `4 * hits / samples`.
pub struct PiEstimate {
    pub hits: u64,
    pub samples: u64,
}

impl PiEstimate {
    /// No more hits than samples.
    pub open spec fn wf(&self) -> bool {
        self.hits <= self.samples
    }
}

/// The estimate lies in `[0, 4]`: `0 <= 4 * hits <= 4 * samples`, which for
/// `samples > 0` reads `0 <= 4 * hits / samples <= 4`.
pub proof fn lemma_estimate_in_range(e: PiEstimate)
    requires
        e.wf(),
    ensures
        0 <= 4 * e.hits <= 4 * e.samples,
        e.samples > 0 ==> 0 <= (4 * e.hits) / (e.samples as int) <= 4,
{
    if e.samples > 0 {
        vstd::arithmetic::div_mod::lemma_div_is_ordered(
            4 * e.hits as int,
            4 * e.samples as int,
            e.samples as int,
        );
        vstd::arithmetic::div_mod::lemma_div_multiples_vanish(4, e.samples as int);
        assert(4 * e.samples == (e.samples as int) * 4);
    }
}

/// Single-threaded estimate from `samples` draws of a generator seeded with `seed`.
pub fn estimate_pi(samples: u64, seed: u64) -> (r: PiEstimate)
    ensures
        r.wf(),
        r.samples == samples,
        r.hits == inside_count(seed, samples as nat),
{
    let hits = count_hits(seed, samples);
    PiEstimate { hits, samples }
}

/// Independent runs of equal size, one per worker; the aggregate estimate
/// is the arithmetic mean of the runs' estimates.
pub struct ParallelPiEstimate {
    pub worker_hits: Vec<u64>,
    pub samples_per_worker: u64,
}

impl ParallelPiEstimate {
    /// Every run counts no more hits than it drew samples, and the total
    /// number of samples fits in a `u64`.
    pub open spec fn wf(&self) -> bool {
        &&& forall|i: int|
            0 <= i < self.worker_hits@.len() ==> #[trigger] self.worker_hits@[i]
                <= self.samples_per_worker
        &&& self.worker_hits@.len() * self.samples_per_worker <= u64::MAX
    }

    /// The number of samples drawn over all runs.
    pub open spec fn total_samples_spec(&self) -> int {
        self.worker_hits@.len() * self.samples_per_worker
    }

    /// The number of runs.
    pub fn workers(&self) -> (r: usize)
        ensures
            r == self.worker_hits@.len(),
    {
        self.worker_hits.len()
    }

    /// The number of samples drawn over all runs.
    pub fn total_samples(&self) -> (r: u64)
        requires
            self.wf(),
        ensures
            r == self.total_samples_spec(),
    {
        let w = self.worker_hits.len() as u64;
        w * self.samples_per_worker
    }

    /// The number of hits over all runs.
    pub fn total_hits(&self) -> (r: u64)
        requires
            self.wf(),
        ensures
            r == hits_sum(self.worker_hits@),
            r <= self.total_samples_spec(),
    {
        let mut sum: u64 = 0;
        let mut i: usize = 0;
        let ghost c = self.samples_per_worker as int;
        while i < self.worker_hits.len()
            invariant
                self.wf(),
                c == self.samples_per_worker,
                i <= self.worker_hits@.len(),
                sum == hits_sum(self.worker_hits@.take(i as int)),
                sum <= i * c,
            decreases self.worker_hits@.len() - i,
        {
            proof {
                assert(self.worker_hits@.take(i + 1).drop_last() =~= self.worker_hits@.take(
                    i as int,
                ));
                assert((i + 1) * c == i * c + c) by (nonlinear_arith);
                assert((i + 1) * c <= self.worker_hits@.len() * c) by (nonlinear_arith)
                    requires
                        i + 1 <= self.worker_hits@.len(),
                        c >= 0,
                ;
            }
            sum = sum + self.worker_hits[i];
            i = i + 1;
        }
        proof {
            assert(self.worker_hits@.take(i as int) =~= self.worker_hits@);
        }
        sum
    }
}

/// The sum of a sequence of hit counts.
pub open spec fn hits_sum(s: Seq<u64>) -> int
    decreases s.len(),
{
    if s.len() == 0 {
        0
    } else {
        hits_sum(s.drop_last()) + s.last()
    }
}

/// The runs of the workers, in parallel: one run of `samples` draws for
/// each seed, the hit counts in the order of the seeds. Relies on rayon's
/// `into_par_iter`, `map` and `collect`: over a `Vec` they give one result
/// per item, in the items' order, each a result of `count_hits`.
#[verifier::external_body]
fn run_workers(seeds: Vec<u64>, samples: u64) -> (r: Vec<u64>)
    ensures
        r@.len() == seeds@.len(),
        forall|i: int|
            0 <= i < r@.len() ==> #[trigger] r@[i] == inside_count(seeds@[i], samples as nat) && r@[i]
                <= samples,
{
    seeds.into_par_iter().map(|s| count_hits(s, samples)).collect()
}

/// The seed of worker `w` of a parallel run seeded with `seed`.
pub open spec fn worker_seed(seed: u64, w: int) -> u64 {
    ((seed as int + w) % 0x1_0000_0000_0000_0000) as u64
}

/// The worker count actually used: at least one.
pub open spec fn effective_workers(worker_count: usize) -> nat {
    if worker_count == 0 {
        1
    } else {
        worker_count as nat
    }
}

/// `r` is the parallel estimate of `iterations` samples over `worker_count`
/// workers from `seed`: run `w` counts the points inside the disc among the
/// first `iterations / workers` points of the stream of seed `seed + w`.
pub open spec fn is_parallel_estimate(
    r: ParallelPiEstimate,
    iterations: u64,
    worker_count: usize,
    seed: u64,
) -> bool {
    &&& r.worker_hits@.len() == effective_workers(worker_count)
    &&& r.samples_per_worker == iterations as int / (effective_workers(worker_count) as int)
    &&& forall|w: int|
        0 <= w < r.worker_hits@.len() ==> #[trigger] r.worker_hits@[w] == inside_count(
            worker_seed(seed, w),
            r.samples_per_worker as nat,
        )
}

/// The same seed gives the same runs, and so the same aggregate estimate.
pub proof fn lemma_parallel_estimate_deterministic(
    a: ParallelPiEstimate,
    b: ParallelPiEstimate,
    iterations: u64,
    worker_count: usize,
    seed: u64,
)
    requires
        is_parallel_estimate(a, iterations, worker_count, seed),
        is_parallel_estimate(b, iterations, worker_count, seed),
    ensures
        a.worker_hits@ == b.worker_hits@,
        a.samples_per_worker == b.samples_per_worker,
{
    assert(a.worker_hits@ =~= b.worker_hits@);
}

/// Parallel estimate: `iterations` split into `worker_count` equal runs of
/// `iterations / worker_count` samples (the remainder is not drawn), run
/// concurrently, worker `w` seeded with `seed + w` (wrapping). A worker
/// count of 0 counts as 1.
pub fn parallel_estimate_pi(iterations: u64, worker_count: usize, seed: u64) -> (r:
    ParallelPiEstimate)
    ensures
        r.wf(),
        is_parallel_estimate(r, iterations, worker_count, seed),
        r.worker_hits@.len() == effective_workers(worker_count),
        r.samples_per_worker == iterations as int / (effective_workers(worker_count) as int),
        r.total_samples_spec() == effective_workers(worker_count) * (iterations as int / (
        effective_workers(worker_count) as int)),
        r.total_samples_spec() <= iterations,
{
    let workers: usize = if worker_count == 0 {
        1
    } else {
        worker_count
    };
    let w64: u64 = workers as u64;
    let per_worker: u64 = iterations / w64;
    let mut seeds: Vec<u64> = Vec::new();
    let mut i: usize = 0;
    while i < workers
        invariant
            i <= workers,
            seeds@.len() == i,
            forall|k: int| 0 <= k < i ==> #[trigger] seeds@[k] == worker_seed(seed, k),
        decreases workers - i,
    {
        seeds.push(seed.wrapping_add(i as u64));
        i = i + 1;
    }
    let hits = run_workers(seeds, per_worker);
    proof {
        vstd::arithmetic::div_mod::lemma_fundamental_div_mod(iterations as int, workers as int);
        assert(workers * per_worker == per_worker * workers) by (nonlinear_arith);
    }
    ParallelPiEstimate { worker_hits: hits, samples_per_worker: per_worker }
}

} // verus!
