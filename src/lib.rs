//! Host performance probes: CPU, memory and disk workloads whose logic is
//! verified. The clock and the random sources sit behind small trusted
//! boundaries; the disk probe decides the file operations and its caller
//! performs them.

pub mod primes;
pub mod monte_carlo;
pub mod cpu;
pub mod memory;
pub mod latency;
pub mod memory_probe;
pub mod disk;
pub mod rate;
pub mod clock;

pub use cpu::{run_cpu_benchmark, CpuResult};
pub use disk::{DiskProbe, DiskResult};
pub use memory_probe::{run_memory_benchmark, MemoryResult};
