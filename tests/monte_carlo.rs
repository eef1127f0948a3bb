use hostbench::monte_carlo::{
    count_hits, estimate_pi, in_quarter_disc, parallel_estimate_pi, SeededStream,
};
use rand::rngs::StdRng;
use rand::{Rng, SeedableRng};

#[test]
fn quarter_disc_corners() {
    assert!(in_quarter_disc(0, 0));
    assert!(in_quarter_disc(u32::MAX, 0));
    assert!(in_quarter_disc(0, u32::MAX));
    assert!(!in_quarter_disc(u32::MAX, u32::MAX));
    // 0.75^2 + 0.75^2 = 1.125 > 1; 0.5^2 + 0.5^2 = 0.5 <= 1
    assert!(!in_quarter_disc(3 << 30, 3 << 30));
    assert!(in_quarter_disc(1 << 31, 1 << 31));
    // (0.6, 0.8) lies on the circle up to rounding down of the coordinates
    let x = (0.6f64 * 4294967296.0) as u32;
    let y = (0.8f64 * 4294967296.0) as u32;
    assert!(in_quarter_disc(x, y));
}

#[test]
fn single_estimate_lies_in_zero_to_four() {
    for seed in 0..5u64 {
        let e = estimate_pi(10_000, seed);
        assert_eq!(e.samples, 10_000);
        assert!(e.hits <= e.samples);
        let pi = 4.0 * e.hits as f64 / e.samples as f64;
        assert!((0.0..=4.0).contains(&pi));
        assert!((pi - std::f64::consts::PI).abs() < 0.2, "pi = {}", pi);
    }
}

#[test]
fn single_estimate_is_reproducible_from_its_seed() {
    assert_eq!(count_hits(42, 5000), count_hits(42, 5000));
    assert_eq!(count_hits(3, 0), 0);
}

#[test]
fn parallel_uses_equal_runs_and_drops_the_remainder() {
    let e = parallel_estimate_pi(1001, 4, 9);
    assert_eq!(e.workers(), 4);
    assert_eq!(e.samples_per_worker, 250);
    assert_eq!(e.total_samples(), 1000);
    assert!(e.total_hits() <= 1000);
    for &h in &e.worker_hits {
        assert!(h <= 250);
    }
    assert_eq!(e.total_hits(), e.worker_hits.iter().sum::<u64>());
}

#[test]
fn parallel_seeded_run_is_deterministic() {
    let a = parallel_estimate_pi(1000, 4, 12345);
    let b = parallel_estimate_pi(1000, 4, 12345);
    assert_eq!(a.worker_hits, b.worker_hits);
    assert_eq!(a.samples_per_worker, 250);
    let mean_a: f64 = a.worker_hits.iter().map(|&h| 4.0 * h as f64 / 250.0).sum::<f64>() / 4.0;
    let mean_b: f64 = b.worker_hits.iter().map(|&h| 4.0 * h as f64 / 250.0).sum::<f64>() / 4.0;
    assert_eq!(mean_a, mean_b);
}

#[test]
fn parallel_worker_runs_follow_their_seeds() {
    let e = parallel_estimate_pi(3000, 3, 100);
    for (w, &h) in e.worker_hits.iter().enumerate() {
        assert_eq!(h, count_hits(100 + w as u64, 1000));
    }
}

#[test]
fn parallel_zero_workers_counts_as_one() {
    let e = parallel_estimate_pi(500, 0, 1);
    assert_eq!(e.workers(), 1);
    assert_eq!(e.samples_per_worker, 500);
}

#[test]
fn seeded_stream_follows_std_rng() {
    let mut stream = SeededStream::new(77);
    let mut rng = StdRng::seed_from_u64(77);
    let mut distinct = false;
    let first = stream.next_u32();
    assert_eq!(first, rng.gen::<u32>());
    for _ in 0..20 {
        let v = stream.next_u32();
        assert_eq!(v, rng.gen::<u32>());
        distinct |= v != first;
    }
    assert!(distinct);
}

#[test]
fn hits_count_the_drawn_points_inside_the_disc() {
    for seed in [0u64, 1, 99] {
        let mut rng = StdRng::seed_from_u64(seed);
        let mut expected = 0u64;
        for _ in 0..2000 {
            let x: u32 = rng.gen();
            let y: u32 = rng.gen();
            let (fx, fy) = (x as u128, y as u128);
            if fx * fx + fy * fy <= 1u128 << 64 {
                expected += 1;
            }
        }
        assert_eq!(count_hits(seed, 2000), expected);
        assert_eq!(estimate_pi(2000, seed).hits, expected);
    }
}
