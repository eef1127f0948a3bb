//! The memory probe: sequential and random bandwidth over a buffer of the
//! requested size, and the average latency of a pointer chase.

use vstd::prelude::*;
use std::time::Instant;
use crate::clock::nanos_since;
use crate::latency::{
    LATENCY_ARRAY_SIZE,
    LATENCY_ITERATIONS,
    build_chase_cycle,
    chase,
    follow,
    is_single_cycle,
};
use crate::memory::{
    CHUNK_SIZE,
    FILL_BYTE,
    allocate_buffer,
    chunks_in_bounds,
    fill_chunks,
    fill_sequential,
    filled,
    lemma_byte_sum_filled,
    lemma_chunks_sum_filled,
    random_chunk_indices,
    sum_chunks,
    sum_sequential,
};
use crate::rate::Throughput;

verus! {

/// Bytes in one GiB.
pub const GIB: usize = 1073741824;

/// Why the memory probe stopped without a result.
#[derive(Clone, Copy, Debug, PartialEq, Eq, Structural)]
pub enum MemoryError {
    /// The requested size in bytes does not fit in a `usize`.
    BufferTooLarge,
    /// The allocator could not provide the buffer.
    AllocationFailed,
}

/// What the memory probe measured: bytes moved and the nanoseconds it took
/// for each access pattern, the sums that the reads produced, and the
/// pointer chase's total time, step count and final slot.
pub struct MemoryResult {
    pub sequential_write: Throughput,
    pub sequential_read: Throughput,
    pub random_write: Throughput,
    pub random_read: Throughput,
    pub sequential_read_sum: u128,
    pub random_read_sum: u128,
    pub latency_nanos: u64,
    pub latency_steps: u64,
    pub latency_final_slot: usize,
    pub latency_cycle: Ghost<Seq<usize>>,
}

/// The buffer size in bytes for `size_gb` GiB.
pub open spec fn buffer_bytes(size_gb: usize) -> int {
    size_gb * GIB
}

/// The whole chunks of a buffer of `len` bytes, each drawn at random once per chunk.
pub open spec fn random_draws(len: int) -> int {
    len / (CHUNK_SIZE as int)
}

proof fn lemma_draws_in_bounds(idxs: Seq<usize>, len: nat)
    requires
        forall|k: int| 0 <= k < idxs.len() ==> #[trigger] idxs[k] < len / (CHUNK_SIZE as nat),
    ensures
        chunks_in_bounds(idxs, len),
{
    let c = CHUNK_SIZE as int;
    vstd::arithmetic::div_mod::lemma_fundamental_div_mod(len as int, c);
    assert forall|k: int| 0 <= k < idxs.len() implies (#[trigger] idxs[k] + 1) * CHUNK_SIZE
        <= len by {
        let q = len as int / c;
        assert((idxs[k] + 1) * c <= q * c) by (nonlinear_arith)
            requires
                idxs[k] + 1 <= q,
                c > 0,
        ;
        assert(q * c <= len) by (nonlinear_arith)
            requires
                len == c * q + (len as int) % c,
                (len as int) % c >= 0,
        ;
    }
}

/// A buffer of `len` bytes of `value`, or the allocation error.
fn buffer_or_error(len: usize, value: u8) -> (r: Result<Vec<u8>, MemoryError>)
    ensures
        r matches Ok(v) ==> v@ == filled(len as nat, value),
        r matches Err(e) ==> e == MemoryError::AllocationFailed,
        len == 0 ==> r is Ok,
{
    match allocate_buffer(len, value) {
        Some(v) => Ok(v),
        None => Err(MemoryError::AllocationFailed),
    }
}

/// A read phase: its throughput and the sum of the bytes it read, which
/// the caller keeps so that the reads cannot be optimised away.
pub struct ReadMeasure {
    pub throughput: Throughput,
    pub sum: u128,
}

/// A write phase: its throughput and what the buffer held afterwards.
pub struct WriteMeasure {
    pub throughput: Throughput,
    pub contents: Ghost<Seq<u8>>,
}

/// A random write phase: as a write phase, with the chunk indices drawn.
pub struct RandomWriteMeasure {
    pub throughput: Throughput,
    pub contents: Ghost<Seq<u8>>,
    pub chunks: Ghost<Seq<usize>>,
}

/// The pointer chase: its total time, its steps, the slot it ended on and
/// the cycle it followed.
pub struct LatencyMeasure {
    pub nanos: u64,
    pub steps: u64,
    pub final_slot: usize,
    pub cycle: Ghost<Seq<usize>>,
}

proof fn lemma_whole_chunks(len: usize, chunks: usize)
    requires
        chunks == len / CHUNK_SIZE,
    ensures
        chunks * CHUNK_SIZE <= len,
{
    vstd::arithmetic::div_mod::lemma_fundamental_div_mod(len as int, CHUNK_SIZE as int);
    assert(chunks * CHUNK_SIZE <= len) by (nonlinear_arith)
        requires
            len == (CHUNK_SIZE as int) * (chunks as int) + (len as int) % (CHUNK_SIZE as int),
            (len as int) % (CHUNK_SIZE as int) >= 0,
    ;
}

/// Sequential write: a zeroed buffer of `len` bytes filled with the fill
/// byte chunk by chunk, timed.
pub fn measure_sequential_write(len: usize) -> (r: Result<WriteMeasure, MemoryError>)
    ensures
        r matches Ok(m) ==> m.throughput.amount == len && m.contents@ == filled(
            len as nat,
            FILL_BYTE,
        ),
        r matches Err(e) ==> e == MemoryError::AllocationFailed,
        len == 0 ==> r is Ok,
{
    let mut buf = buffer_or_error(len, 0)?;
    let start = Instant::now();
    fill_sequential(&mut buf, FILL_BYTE);
    let nanos = nanos_since(&start);
    Ok(WriteMeasure { throughput: Throughput { amount: len as u64, nanos }, contents: Ghost(buf@) })
}

/// Sequential read: a buffer of `len` fill bytes summed chunk by chunk, timed.
pub fn measure_sequential_read(len: usize) -> (r: Result<ReadMeasure, MemoryError>)
    ensures
        r matches Ok(m) ==> m.throughput.amount == len && m.sum == FILL_BYTE * len,
        r matches Err(e) ==> e == MemoryError::AllocationFailed,
        len == 0 ==> r is Ok,
{
    let buf = buffer_or_error(len, FILL_BYTE)?;
    let start = Instant::now();
    let sum = sum_sequential(&buf);
    let nanos = nanos_since(&start);
    proof {
        lemma_byte_sum_filled(buf@, FILL_BYTE);
    }
    Ok(ReadMeasure { throughput: Throughput { amount: len as u64, nanos }, sum })
}

/// Random write: as many chunks as a zeroed buffer of `len` bytes holds,
/// each drawn at random with replacement and filled with the fill byte,
/// timed. A byte holds the fill byte exactly when its chunk was drawn.
pub fn measure_random_write(len: usize, rng: &mut fastrand::Rng) -> (r: Result<
    RandomWriteMeasure,
    MemoryError,
>)
    ensures
        r matches Ok(m) ==> {
            &&& m.throughput.amount == random_draws(len as int) * CHUNK_SIZE
            &&& m.chunks@.len() == random_draws(len as int)
            &&& forall|k: int|
                0 <= k < m.chunks@.len() ==> #[trigger] m.chunks@[k] < random_draws(len as int)
            &&& m.contents@.len() == len
            &&& forall|j: int|
                0 <= j < len ==> #[trigger] m.contents@[j] == if m.chunks@.contains(
                    (j / (CHUNK_SIZE as int)) as usize,
                ) {
                    FILL_BYTE
                } else {
                    0u8
                }
        },
        r matches Err(e) ==> e == MemoryError::AllocationFailed,
        len == 0 ==> r is Ok,
{
    let chunks: usize = len / CHUNK_SIZE;
    proof {
        lemma_whole_chunks(len, chunks);
    }
    let mut buf = buffer_or_error(len, 0)?;
    let idxs = random_chunk_indices(rng, chunks, chunks);
    proof {
        lemma_draws_in_bounds(idxs@, len as nat);
    }
    let ghost zeroed = buf@;
    let start = Instant::now();
    fill_chunks(&mut buf, &idxs, FILL_BYTE);
    let nanos = nanos_since(&start);
    proof {
        assert forall|j: int| 0 <= j < len implies #[trigger] buf@[j] == if idxs@.contains(
            (j / (CHUNK_SIZE as int)) as usize,
        ) {
            FILL_BYTE
        } else {
            0u8
        } by {
            assert(zeroed[j] == 0u8);
        }
    }
    Ok(
        RandomWriteMeasure {
            throughput: Throughput { amount: (chunks * CHUNK_SIZE) as u64, nanos },
            contents: Ghost(buf@),
            chunks: Ghost(idxs@),
        },
    )
}

/// Random read: as many chunks as a buffer of `len` fill bytes holds, each
/// drawn at random with replacement and summed, timed.
pub fn measure_random_read(len: usize, rng: &mut fastrand::Rng) -> (r: Result<
    ReadMeasure,
    MemoryError,
>)
    ensures
        r matches Ok(m) ==> {
            &&& m.throughput.amount == random_draws(len as int) * CHUNK_SIZE
            &&& m.sum == FILL_BYTE * CHUNK_SIZE * random_draws(len as int)
        },
        r matches Err(e) ==> e == MemoryError::AllocationFailed,
        len == 0 ==> r is Ok,
{
    let chunks: usize = len / CHUNK_SIZE;
    proof {
        lemma_whole_chunks(len, chunks);
    }
    let buf = buffer_or_error(len, FILL_BYTE)?;
    let idxs = random_chunk_indices(rng, chunks, chunks);
    proof {
        lemma_draws_in_bounds(idxs@, len as nat);
    }
    let start = Instant::now();
    let sum = sum_chunks(&buf, &idxs);
    let nanos = nanos_since(&start);
    proof {
        lemma_chunks_sum_filled(buf@, idxs@, FILL_BYTE);
    }
    Ok(ReadMeasure { throughput: Throughput { amount: (chunks * CHUNK_SIZE) as u64, nanos }, sum })
}

/// Latency: a single cycle through `LATENCY_ARRAY_SIZE` slots, built at
/// random, then followed for `LATENCY_ITERATIONS` steps, timed. The average
/// latency is the time divided by the steps.
pub fn measure_memory_latency(rng: &mut fastrand::Rng) -> (r: LatencyMeasure)
    ensures
        r.steps == LATENCY_ITERATIONS,
        r.final_slot < LATENCY_ARRAY_SIZE,
        r.cycle@.len() == LATENCY_ARRAY_SIZE,
        is_single_cycle(r.cycle@),
        r.final_slot == follow(r.cycle@, 0, LATENCY_ITERATIONS as nat),
{
    let next = build_chase_cycle(LATENCY_ARRAY_SIZE, rng);
    let start = Instant::now();
    let last = chase(&next, LATENCY_ITERATIONS);
    let nanos = nanos_since(&start);
    LatencyMeasure { nanos, steps: LATENCY_ITERATIONS, final_slot: last, cycle: Ghost(next@) }
}

/// Runs the memory workloads one after another over a buffer of `size_gb`
/// GiB: sequential write, sequential read, random write and random read,
/// each on a buffer of its own, then the pointer chase. A size of 0 moves
/// no bytes and so reports rates of 0. The random chunk indices are drawn
/// before the clock of their phase starts. The random streams derive from
/// `seed`.
pub fn run_memory_benchmark(size_gb: usize, seed: u64) -> (r: Result<MemoryResult, MemoryError>)
    ensures
        r == Err::<MemoryResult, MemoryError>(MemoryError::BufferTooLarge) <==> buffer_bytes(
            size_gb,
        ) > usize::MAX,
        r matches Ok(m) ==> {
            &&& m.sequential_write.amount == buffer_bytes(size_gb)
            &&& m.sequential_read.amount == buffer_bytes(size_gb)
            &&& m.sequential_read_sum == FILL_BYTE * buffer_bytes(size_gb)
            &&& m.random_write.amount == random_draws(buffer_bytes(size_gb)) * CHUNK_SIZE
            &&& m.random_read.amount == random_draws(buffer_bytes(size_gb)) * CHUNK_SIZE
            &&& m.random_read_sum == FILL_BYTE * CHUNK_SIZE * random_draws(
                buffer_bytes(size_gb),
            )
            &&& m.latency_steps == LATENCY_ITERATIONS
            &&& m.latency_final_slot < LATENCY_ARRAY_SIZE
            &&& m.latency_cycle@.len() == LATENCY_ARRAY_SIZE
            &&& is_single_cycle(m.latency_cycle@)
            &&& m.latency_final_slot == follow(m.latency_cycle@, 0, LATENCY_ITERATIONS as nat)
        },
        size_gb == 0 ==> r is Ok,
{
    if size_gb > usize::MAX / GIB {
        return Err(MemoryError::BufferTooLarge);
    }
    let len: usize = size_gb * GIB;
    let mut rng = fastrand::Rng::with_seed(seed);
    let seq_write = measure_sequential_write(len)?;
    let seq_read = measure_sequential_read(len)?;
    let rand_write = measure_random_write(len, &mut rng)?;
    let rand_read = measure_random_read(len, &mut rng)?;
    let latency = measure_memory_latency(&mut rng);
    Ok(
        MemoryResult {
            sequential_write: seq_write.throughput,
            sequential_read: seq_read.throughput,
            random_write: rand_write.throughput,
            random_read: rand_read.throughput,
            sequential_read_sum: seq_read.sum,
            random_read_sum: rand_read.sum,
            latency_nanos: latency.nanos,
            latency_steps: latency.steps,
            latency_final_slot: latency.final_slot,
            latency_cycle: latency.cycle,
        },
    )
}

} // verus!
