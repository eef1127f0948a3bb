use hostbench::latency::{build_chase_cycle, chase};
use hostbench::memory::{
    allocate_buffer, fill_chunks, fill_sequential, random_chunk_indices, sum_chunks,
    sum_sequential, CHUNK_SIZE,
};
use hostbench::memory_probe::{
    measure_memory_latency, measure_random_read, measure_random_write, measure_sequential_read,
    measure_sequential_write, run_memory_benchmark, MemoryError,
};
use hostbench::rate::Throughput;

#[test]
fn allocate_fill_and_sum() {
    let mut buf = allocate_buffer(CHUNK_SIZE + 10, 0).unwrap();
    assert_eq!(buf.len(), CHUNK_SIZE + 10);
    assert!(buf.iter().all(|&b| b == 0));
    assert_eq!(sum_sequential(&buf), 0);
    fill_sequential(&mut buf, 42);
    assert!(buf.iter().all(|&b| b == 42));
    assert_eq!(sum_sequential(&buf), 42 * (CHUNK_SIZE as u128 + 10));
}

#[test]
fn sum_of_varied_bytes() {
    let buf: Vec<u8> = (0..1000u32).map(|i| (i % 256) as u8).collect();
    let expected: u128 = buf.iter().map(|&b| b as u128).sum();
    assert_eq!(sum_sequential(&buf), expected);
}

#[test]
fn random_write_touches_only_named_chunks() {
    let mut buf = allocate_buffer(3 * CHUNK_SIZE, 0).unwrap();
    fill_chunks(&mut buf, &vec![2, 0, 2], 7);
    assert!(buf[..CHUNK_SIZE].iter().all(|&b| b == 7));
    assert!(buf[CHUNK_SIZE..2 * CHUNK_SIZE].iter().all(|&b| b == 0));
    assert!(buf[2 * CHUNK_SIZE..].iter().all(|&b| b == 7));
    assert_eq!(sum_chunks(&buf, &vec![1]), 0);
    assert_eq!(sum_chunks(&buf, &vec![0, 0, 2]), 3 * 7 * CHUNK_SIZE as u128);
}

#[test]
fn random_indices_stay_below_the_chunk_count() {
    let mut rng = fastrand::Rng::with_seed(5);
    let idxs = random_chunk_indices(&mut rng, 4, 100);
    assert_eq!(idxs.len(), 100);
    assert!(idxs.iter().all(|&i| i < 4));
    let mut rng = fastrand::Rng::with_seed(5);
    assert!(random_chunk_indices(&mut rng, 0, 0).is_empty());
}

#[test]
fn chase_cycle_of_sixteen_visits_every_slot_once() {
    for seed in 0..20u64 {
        let mut rng = fastrand::Rng::with_seed(seed);
        let next = build_chase_cycle(16, &mut rng);
        assert_eq!(next.len(), 16);
        let mut seen = [false; 16];
        let mut cur = 0usize;
        for _ in 0..16 {
            assert!(!seen[cur]);
            seen[cur] = true;
            cur = next[cur];
        }
        assert_eq!(cur, 0);
        assert!(seen.iter().all(|&s| s));
        assert_eq!(chase(&next, 16), 0);
        assert_eq!(chase(&next, 1), next[0]);
        assert_eq!(chase(&next, 0), 0);
    }
}

#[test]
fn chase_cycle_of_one_slot() {
    let mut rng = fastrand::Rng::with_seed(1);
    let next = build_chase_cycle(1, &mut rng);
    assert_eq!(next, vec![0]);
    assert_eq!(chase(&next, 1000), 0);
}

#[test]
fn memory_probe_with_zero_size_reports_zero_rates() {
    let m = run_memory_benchmark(0, 3).unwrap();
    assert_eq!(m.sequential_write.amount, 0);
    assert_eq!(m.sequential_read.amount, 0);
    assert_eq!(m.random_write.amount, 0);
    assert_eq!(m.random_read.amount, 0);
    assert_eq!(m.sequential_write.per_second(), 0);
    assert_eq!(m.sequential_read.per_second(), 0);
    assert_eq!(m.random_write.per_second(), 0);
    assert_eq!(m.random_read.per_second(), 0);
    assert_eq!(m.sequential_read_sum, 0);
    assert_eq!(m.random_read_sum, 0);
    assert_eq!(m.latency_steps, 10_000_000);
    assert!(m.latency_final_slot < 1 << 20);
}

#[test]
fn memory_probe_rejects_a_size_beyond_the_address_space() {
    assert!(matches!(
        run_memory_benchmark(usize::MAX, 3),
        Err(MemoryError::BufferTooLarge)
    ));
}

#[test]
fn throughput_rates() {
    assert_eq!(Throughput { amount: 1000, nanos: 1_000_000_000 }.per_second(), 1000);
    assert_eq!(Throughput { amount: 3, nanos: 2_000_000_000 }.per_second(), 1);
    assert_eq!(Throughput { amount: 1 << 30, nanos: 500_000_000 }.per_second(), 2 << 30);
    assert_eq!(Throughput { amount: 0, nanos: 0 }.per_second(), 0);
    assert_eq!(Throughput { amount: 5, nanos: 0 }.per_second(), u64::MAX);
    assert_eq!(Throughput { amount: u64::MAX, nanos: 1 }.per_second(), u64::MAX);
    assert_eq!(Throughput { amount: 1, nanos: 2_000_000_000 }.per_second(), 0);
}

#[test]
fn measure_phases_on_a_small_buffer() {
    let len = 3 * CHUNK_SIZE + 5;
    let w = measure_sequential_write(len).unwrap();
    assert_eq!(w.throughput.amount, len as u64);
    let r = measure_sequential_read(len).unwrap();
    assert_eq!(r.throughput.amount, len as u64);
    assert_eq!(r.sum, 42 * len as u128);
    let mut rng = fastrand::Rng::with_seed(8);
    let rw = measure_random_write(len, &mut rng).unwrap();
    assert_eq!(rw.throughput.amount, 3 * CHUNK_SIZE as u64);
    let rr = measure_random_read(len, &mut rng).unwrap();
    assert_eq!(rr.throughput.amount, 3 * CHUNK_SIZE as u64);
    assert_eq!(rr.sum, 42 * 3 * CHUNK_SIZE as u128);
}

#[test]
fn measure_random_phases_below_one_chunk() {
    let mut rng = fastrand::Rng::with_seed(8);
    assert_eq!(measure_random_write(100, &mut rng).unwrap().throughput.amount, 0);
    let rr = measure_random_read(100, &mut rng).unwrap();
    assert_eq!(rr.throughput.amount, 0);
    assert_eq!(rr.sum, 0);
}

#[test]
fn measure_latency_takes_the_fixed_steps() {
    let mut rng = fastrand::Rng::with_seed(4);
    let l = measure_memory_latency(&mut rng);
    assert_eq!(l.steps, 10_000_000);
    assert!(l.final_slot < 1 << 20);
}

#[test]
fn measure_phases_of_zero_bytes_succeed_with_nothing_moved() {
    let w = measure_sequential_write(0).unwrap();
    assert_eq!(w.throughput.amount, 0);
    assert_eq!(w.throughput.per_second(), 0);
    let r = measure_sequential_read(0).unwrap();
    assert_eq!(r.throughput.amount, 0);
    assert_eq!(r.sum, 0);
    let mut rng = fastrand::Rng::with_seed(2);
    let rw = measure_random_write(0, &mut rng).unwrap();
    assert_eq!(rw.throughput.amount, 0);
    let rr = measure_random_read(0, &mut rng).unwrap();
    assert_eq!(rr.throughput.amount, 0);
    assert_eq!(rr.sum, 0);
    assert_eq!(allocate_buffer(0, 9), Some(vec![]));
}
