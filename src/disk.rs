//! The disk probe's decisions, as a state machine: it says which file
//! operation comes next, is told how each one went, and guarantees that a
//! file it asked to create is asked to be removed before it finishes,
//! whether the run succeeded or failed. The caller performs the operations
//! on a temporary file and reads the clock.

use vstd::prelude::*;
use crate::rate::Throughput;

verus! {

/// The chunk of the large-block phases: one MiB.
pub const LARGE_CHUNK_SIZE: usize = 1048576;

/// The block of the small-block phases: four KiB.
pub const SMALL_BLOCK_SIZE: usize = 4096;

/// Chunks in one GiB.
pub const CHUNKS_PER_GB: u64 = 1024;

/// The most large chunks a run writes: their bytes must fit in a `u64`.
pub const MAX_LARGE_CHUNKS: u64 = 17592186044415;

/// The most small blocks a run writes: their offsets must fit in a `u64`.
pub const MAX_SMALL_BLOCKS: u64 = 4503599627370495;

/// The four measured phases, in the order in which they run.
#[derive(Clone, Copy, Debug, PartialEq, Eq, Structural)]
pub enum DiskPhase {
    LargeWrite,
    LargeRead,
    SmallWrite,
    SmallRead,
}

/// What the machine waits for.
#[derive(Clone, Copy, Debug, PartialEq, Eq, Structural)]
pub enum DiskStage {
    /// Nothing asked yet.
    Idle,
    /// The file is being created or opened for the current phase.
    Opening,
    /// An operation of the current phase is under way.
    Running,
    /// The file is being flushed and closed, and the phase's clock stopped.
    Closing,
    /// The file is being removed.
    Removing,
    /// The run is over.
    Finished,
}

/// The next operation on the temporary file.
#[derive(Clone, Copy, Debug, PartialEq, Eq, Structural)]
pub enum DiskAction {
    /// Create the file afresh for writing, through a buffered writer or
    /// not, and start the phase's clock.
    Create { buffered: bool },
    /// Open the file for reading and start the phase's clock.
    Open,
    /// Write `len` fill bytes through the buffered writer.
    WriteChunk { len: usize },
    /// Read exactly `len` bytes at the current position.
    ReadChunk { len: usize },
    /// Seek to `offset`, write `len` fill bytes, and force them to storage
    /// before the next operation (no write coalescing).
    WriteBlockAt { offset: u64, len: usize },
    /// Seek to `offset` and read exactly `len` bytes.
    ReadBlockAt { offset: u64, len: usize },
    /// Flush, close the file, and stop the phase's clock.
    Close,
    /// Close the file if it is open, and remove it.
    Remove,
    /// Nothing more to do.
    Finish,
}

/// How the last operation went.
#[derive(Clone, Copy, Debug, PartialEq, Eq, Structural)]
pub enum DiskEvent {
    /// It succeeded.
    Done,
    /// The file was closed after `nanos` nanoseconds of the phase.
    Closed { nanos: u64 },
    /// It failed.
    Failed,
}

/// The disk probe's results: bytes per large phase and operations per
/// small phase, with the nanoseconds each took.
#[derive(Clone, Copy, Debug, PartialEq, Eq, Structural)]
pub struct DiskResult {
    pub large_write: Throughput,
    pub large_read: Throughput,
    pub small_write: Throughput,
    pub small_read: Throughput,
}

/// The state of one run of the disk probe.
pub struct DiskProbe {
    pub large_chunks: u64,
    pub small_blocks: u64,
    pub phase: DiskPhase,
    pub stage: DiskStage,
    pub progress: u64,
    pub file_present: bool,
    pub failed_in: Option<DiskPhase>,
    pub cleanup_failed: bool,
    pub large_write_nanos: u64,
    pub large_read_nanos: u64,
    pub small_write_nanos: u64,
    pub small_read_nanos: u64,
}

/// The large chunks for `large_file_gb` GiB, capped at `MAX_LARGE_CHUNKS`.
pub open spec fn large_chunks_for(large_file_gb: usize) -> int {
    if large_file_gb * CHUNKS_PER_GB > MAX_LARGE_CHUNKS {
        MAX_LARGE_CHUNKS as int
    } else {
        large_file_gb * CHUNKS_PER_GB
    }
}

/// The small blocks for `iterations`, capped at `MAX_SMALL_BLOCKS`.
pub open spec fn small_blocks_for(iterations: usize) -> int {
    if iterations > MAX_SMALL_BLOCKS {
        MAX_SMALL_BLOCKS as int
    } else {
        iterations as int
    }
}

impl DiskProbe {
    /// The operations of a phase between opening and closing the file.
    pub open spec fn units(&self, phase: DiskPhase) -> u64 {
        match phase {
            DiskPhase::LargeWrite | DiskPhase::LargeRead => self.large_chunks,
            _ => self.small_blocks,
        }
    }

    /// The sizes are within their caps and the progress within its phase.
    pub open spec fn wf(&self) -> bool {
        &&& self.large_chunks <= MAX_LARGE_CHUNKS
        &&& self.small_blocks <= MAX_SMALL_BLOCKS
        &&& self.progress <= self.units(self.phase)
        &&& self.stage == DiskStage::Idle ==> !self.file_present
        &&& (self.stage == DiskStage::Opening || self.stage == DiskStage::Running || self.stage
            == DiskStage::Closing || self.stage == DiskStage::Removing) ==> self.file_present
        &&& self.stage == DiskStage::Finished ==> !self.file_present || self.cleanup_failed
        &&& self.cleanup_failed ==> self.failed_in.is_some()
    }

    /// A run that writes `large_file_gb` GiB in one-MiB chunks and reads
    /// them back, then writes and reads `small_file_iterations` blocks of
    /// four KiB, block `i` at offset `i * 4096`.
    pub fn new(large_file_gb: usize, small_file_iterations: usize) -> (r: DiskProbe)
        ensures
            r.wf(),
            r.large_chunks == large_chunks_for(large_file_gb),
            r.small_blocks == small_blocks_for(small_file_iterations),
            r.stage == DiskStage::Idle,
            r.phase == DiskPhase::LargeWrite,
            !r.file_present,
            r.failed_in.is_none(),
            !r.cleanup_failed,
    {
        let gb = large_file_gb as u64;
        let large_chunks: u64 = if gb > MAX_LARGE_CHUNKS / CHUNKS_PER_GB {
            MAX_LARGE_CHUNKS
        } else {
            gb * CHUNKS_PER_GB
        };
        let iterations = small_file_iterations as u64;
        let small_blocks: u64 = if iterations > MAX_SMALL_BLOCKS {
            MAX_SMALL_BLOCKS
        } else {
            iterations
        };
        DiskProbe {
            large_chunks,
            small_blocks,
            phase: DiskPhase::LargeWrite,
            stage: DiskStage::Idle,
            progress: 0,
            file_present: false,
            failed_in: None,
            cleanup_failed: false,
            large_write_nanos: 0,
            large_read_nanos: 0,
            small_write_nanos: 0,
            small_read_nanos: 0,
        }
    }

    /// The operations of the current phase.
    fn phase_units(&self) -> (r: u64)
        ensures
            r == self.units(self.phase),
    {
        match self.phase {
            DiskPhase::LargeWrite | DiskPhase::LargeRead => self.large_chunks,
            _ => self.small_blocks,
        }
    }

    /// The operation with index `self.progress` of the current phase.
    fn unit_action(&self) -> (a: DiskAction)
        requires
            self.wf(),
            self.progress < self.units(self.phase),
        ensures
            a == unit_action_spec(self.phase, self.progress),
    {
        proof {
            if self.phase == DiskPhase::SmallWrite || self.phase == DiskPhase::SmallRead {
                assert(self.progress * SMALL_BLOCK_SIZE <= MAX_SMALL_BLOCKS * SMALL_BLOCK_SIZE)
                    by (nonlinear_arith)
                    requires
                        self.progress <= MAX_SMALL_BLOCKS,
                ;
            }
        }
        match self.phase {
            DiskPhase::LargeWrite => DiskAction::WriteChunk { len: LARGE_CHUNK_SIZE },
            DiskPhase::LargeRead => DiskAction::ReadChunk { len: LARGE_CHUNK_SIZE },
            DiskPhase::SmallWrite => DiskAction::WriteBlockAt {
                offset: self.progress * SMALL_BLOCK_SIZE as u64,
                len: SMALL_BLOCK_SIZE,
            },
            DiskPhase::SmallRead => DiskAction::ReadBlockAt {
                offset: self.progress * SMALL_BLOCK_SIZE as u64,
                len: SMALL_BLOCK_SIZE,
            },
        }
    }

    /// Gives up the current phase: the file, if it may exist, is to be
    /// removed next; otherwise the run is over.
    fn fail(&mut self) -> (a: DiskAction)
        requires
            old(self).wf(),
        ensures
            final(self).wf(),
            *final(self) == fail_state(*old(self)),
            a == failure_action(*old(self)),
    {
        self.failed_in = Some(self.phase);
        if self.file_present {
            self.stage = DiskStage::Removing;
            DiskAction::Remove
        } else {
            self.stage = DiskStage::Finished;
            DiskAction::Finish
        }
    }

    /// Starts `phase`: creates the file for a write phase, opens it for a
    /// read phase.
    fn begin(&mut self, phase: DiskPhase) -> (a: DiskAction)
        requires
            old(self).wf(),
            phase == DiskPhase::LargeRead || phase == DiskPhase::SmallRead ==> old(
                self,
            ).file_present,
        ensures
            final(self).wf(),
            *final(self) == begin_state(*old(self), phase),
            a == match phase {
                DiskPhase::LargeWrite => DiskAction::Create { buffered: true },
                DiskPhase::SmallWrite => DiskAction::Create { buffered: false },
                _ => DiskAction::Open,
            },
    {
        self.phase = phase;
        self.stage = DiskStage::Opening;
        self.progress = 0;
        self.file_present = true;
        match phase {
            DiskPhase::LargeWrite => DiskAction::Create { buffered: true },
            DiskPhase::SmallWrite => DiskAction::Create { buffered: false },
            _ => DiskAction::Open,
        }
    }

    /// The next operation, given how the last one went. The first call
    /// ignores its event.
    pub fn step(&mut self, event: DiskEvent) -> (a: DiskAction)
        requires
            old(self).wf(),
        ensures
            final(self).wf(),
            a == DiskAction::Finish <==> final(self).stage == DiskStage::Finished,
            a == DiskAction::Finish ==> !final(self).file_present || final(self).cleanup_failed,
            old(self).stage != DiskStage::Removing && old(self).stage != DiskStage::Finished
                && old(self).stage != DiskStage::Idle && event == DiskEvent::Failed ==> {
                &&& final(self).failed_in == Some(old(self).phase)
                &&& (old(self).file_present ==> a == DiskAction::Remove)
            },
            a == DiskAction::Remove ==> final(self).stage == DiskStage::Removing,
            old(self).stage == DiskStage::Finished ==> a == DiskAction::Finish,
            a == step_spec(*old(self), event),
            *final(self) == next_state(*old(self), event),
    {
        match self.stage {
            DiskStage::Idle => self.begin(DiskPhase::LargeWrite),
            DiskStage::Opening | DiskStage::Running => {
                match event {
                    DiskEvent::Done => {
                        if self.progress < self.phase_units() {
                            let a = self.unit_action();
                            self.stage = DiskStage::Running;
                            self.progress = self.progress + 1;
                            a
                        } else {
                            self.stage = DiskStage::Closing;
                            DiskAction::Close
                        }
                    },
                    _ => self.fail(),
                }
            },
            DiskStage::Closing => {
                match event {
                    DiskEvent::Closed { nanos } => {
                        match self.phase {
                            DiskPhase::LargeWrite => {
                                self.large_write_nanos = nanos;
                                self.begin(DiskPhase::LargeRead)
                            },
                            DiskPhase::LargeRead => {
                                self.large_read_nanos = nanos;
                                self.stage = DiskStage::Removing;
                                DiskAction::Remove
                            },
                            DiskPhase::SmallWrite => {
                                self.small_write_nanos = nanos;
                                self.begin(DiskPhase::SmallRead)
                            },
                            DiskPhase::SmallRead => {
                                self.small_read_nanos = nanos;
                                self.stage = DiskStage::Removing;
                                DiskAction::Remove
                            },
                        }
                    },
                    _ => self.fail(),
                }
            },
            DiskStage::Removing => {
                match event {
                    DiskEvent::Done => {
                        self.stage = DiskStage::Finished;
                        self.file_present = false;
                        if self.failed_in.is_none() && self.phase == DiskPhase::LargeRead {
                            self.begin(DiskPhase::SmallWrite)
                        } else {
                            DiskAction::Finish
                        }
                    },
                    _ => {
                        self.cleanup_failed = true;
                        if self.failed_in.is_none() {
                            self.failed_in = Some(self.phase);
                        }
                        self.stage = DiskStage::Finished;
                        DiskAction::Finish
                    },
                }
            },
            DiskStage::Finished => DiskAction::Finish,
        }
    }

    /// The results of a run that finished without a failure.
    pub fn result(&self) -> (r: Option<DiskResult>)
        requires
            self.wf(),
        ensures
            r.is_some() <==> self.stage == DiskStage::Finished && self.failed_in.is_none(),
            r matches Some(d) ==> {
                &&& d.large_write == Throughput {
                    amount: (self.large_chunks * LARGE_CHUNK_SIZE) as u64,
                    nanos: self.large_write_nanos,
                }
                &&& d.large_read == Throughput {
                    amount: (self.large_chunks * LARGE_CHUNK_SIZE) as u64,
                    nanos: self.large_read_nanos,
                }
                &&& d.small_write == Throughput {
                    amount: self.small_blocks,
                    nanos: self.small_write_nanos,
                }
                &&& d.small_read == Throughput {
                    amount: self.small_blocks,
                    nanos: self.small_read_nanos,
                }
            },
    {
        if self.stage == DiskStage::Finished && self.failed_in.is_none() {
            let bytes = self.large_chunks * LARGE_CHUNK_SIZE as u64;
            Some(
                DiskResult {
                    large_write: Throughput { amount: bytes, nanos: self.large_write_nanos },
                    large_read: Throughput { amount: bytes, nanos: self.large_read_nanos },
                    small_write: Throughput { amount: self.small_blocks, nanos: self.small_write_nanos },
                    small_read: Throughput { amount: self.small_blocks, nanos: self.small_read_nanos },
                },
            )
        } else {
            None
        }
    }
}

/// The operation with index `i` of `phase`: chunks in sequence for the
/// large phases, block `i` at offset `i * SMALL_BLOCK_SIZE` for the small ones.
pub open spec fn unit_action_spec(phase: DiskPhase, i: u64) -> DiskAction {
    match phase {
        DiskPhase::LargeWrite => DiskAction::WriteChunk { len: LARGE_CHUNK_SIZE },
        DiskPhase::LargeRead => DiskAction::ReadChunk { len: LARGE_CHUNK_SIZE },
        DiskPhase::SmallWrite => DiskAction::WriteBlockAt {
            offset: (i * SMALL_BLOCK_SIZE) as u64,
            len: SMALL_BLOCK_SIZE,
        },
        DiskPhase::SmallRead => DiskAction::ReadBlockAt {
            offset: (i * SMALL_BLOCK_SIZE) as u64,
            len: SMALL_BLOCK_SIZE,
        },
    }
}

/// The action after what failed in the current phase.
pub open spec fn failure_action(s: DiskProbe) -> DiskAction {
    if s.file_present {
        DiskAction::Remove
    } else {
        DiskAction::Finish
    }
}

/// `s` starting `phase`.
pub open spec fn begin_state(s: DiskProbe, phase: DiskPhase) -> DiskProbe {
    DiskProbe { phase, stage: DiskStage::Opening, progress: 0, file_present: true, ..s }
}

/// `s` giving up its current phase.
pub open spec fn fail_state(s: DiskProbe) -> DiskProbe {
    DiskProbe {
        failed_in: Some(s.phase),
        stage: if s.file_present {
            DiskStage::Removing
        } else {
            DiskStage::Finished
        },
        ..s
    }
}

/// The state that follows `s` on `event`.
pub open spec fn next_state(s: DiskProbe, event: DiskEvent) -> DiskProbe {
    match s.stage {
        DiskStage::Idle => begin_state(s, DiskPhase::LargeWrite),
        DiskStage::Opening | DiskStage::Running => match event {
            DiskEvent::Done => if s.progress < s.units(s.phase) {
                DiskProbe { stage: DiskStage::Running, progress: (s.progress + 1) as u64, ..s }
            } else {
                DiskProbe { stage: DiskStage::Closing, ..s }
            },
            _ => fail_state(s),
        },
        DiskStage::Closing => match event {
            DiskEvent::Closed { nanos } => match s.phase {
                DiskPhase::LargeWrite => begin_state(
                    DiskProbe { large_write_nanos: nanos, ..s },
                    DiskPhase::LargeRead,
                ),
                DiskPhase::LargeRead => DiskProbe {
                    large_read_nanos: nanos,
                    stage: DiskStage::Removing,
                    ..s
                },
                DiskPhase::SmallWrite => begin_state(
                    DiskProbe { small_write_nanos: nanos, ..s },
                    DiskPhase::SmallRead,
                ),
                DiskPhase::SmallRead => DiskProbe {
                    small_read_nanos: nanos,
                    stage: DiskStage::Removing,
                    ..s
                },
            },
            _ => fail_state(s),
        },
        DiskStage::Removing => match event {
            DiskEvent::Done => if s.failed_in.is_none() && s.phase == DiskPhase::LargeRead {
                begin_state(
                    DiskProbe { stage: DiskStage::Finished, file_present: false, ..s },
                    DiskPhase::SmallWrite,
                )
            } else {
                DiskProbe { stage: DiskStage::Finished, file_present: false, ..s }
            },
            _ => DiskProbe {
                cleanup_failed: true,
                failed_in: if s.failed_in.is_none() {
                    Some(s.phase)
                } else {
                    s.failed_in
                },
                stage: DiskStage::Finished,
                ..s
            },
        },
        DiskStage::Finished => s,
    }
}

/// The state after the events of `events`, one after another, from `s`.
pub open spec fn run_events(s: DiskProbe, events: Seq<DiskEvent>) -> DiskProbe
    decreases events.len(),
{
    if events.len() == 0 {
        s
    } else {
        next_state(run_events(s, events.drop_last()), events.last())
    }
}

/// One transition keeps a state well formed.
pub proof fn lemma_next_state_wf(s: DiskProbe, event: DiskEvent)
    requires
        s.wf(),
    ensures
        next_state(s, event).wf(),
{
}

/// Whatever the operations report, successes and failures alike, a run
/// that has finished has removed its file, unless removing it failed (which
/// counts as a failure of the run); so a run that finished without failure
/// has removed its file. Once finished, a run stays finished.
pub proof fn lemma_finished_run_removed_file(s: DiskProbe, events: Seq<DiskEvent>)
    requires
        s.wf(),
    ensures
        run_events(s, events).wf(),
        run_events(s, events).stage == DiskStage::Finished ==> !run_events(s, events).file_present
            || run_events(s, events).cleanup_failed,
        run_events(s, events).stage == DiskStage::Finished && run_events(
            s,
            events,
        ).failed_in.is_none() ==> !run_events(s, events).file_present,
        s.stage == DiskStage::Finished ==> run_events(s, events) == s,
    decreases events.len(),
{
    if events.len() > 0 {
        lemma_finished_run_removed_file(s, events.drop_last());
        lemma_next_state_wf(run_events(s, events.drop_last()), events.last());
    }
}

/// The next operation of `s`, given `event`.
pub open spec fn step_spec(s: DiskProbe, event: DiskEvent) -> DiskAction {
    match s.stage {
        DiskStage::Idle => DiskAction::Create { buffered: true },
        DiskStage::Opening | DiskStage::Running => match event {
            DiskEvent::Done => if s.progress < s.units(s.phase) {
                unit_action_spec(s.phase, s.progress)
            } else {
                DiskAction::Close
            },
            _ => failure_action(s),
        },
        DiskStage::Closing => match event {
            DiskEvent::Closed { .. } => match s.phase {
                DiskPhase::LargeWrite | DiskPhase::SmallWrite => DiskAction::Open,
                _ => DiskAction::Remove,
            },
            _ => failure_action(s),
        },
        DiskStage::Removing => match event {
            DiskEvent::Done => if s.failed_in.is_none() && s.phase == DiskPhase::LargeRead {
                DiskAction::Create { buffered: false }
            } else {
                DiskAction::Finish
            },
            _ => DiskAction::Finish,
        },
        DiskStage::Finished => DiskAction::Finish,
    }
}

} // verus!
