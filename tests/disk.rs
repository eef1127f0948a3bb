use hostbench::disk::{DiskAction, DiskEvent, DiskPhase, DiskProbe, DiskStage};

/// A file system with one file, whose operations fail where told to.
struct FakeFs {
    exists: bool,
    ops: usize,
    fail_at: Option<usize>,
    fail_remove: bool,
    offsets: Vec<u64>,
    writes: usize,
    reads: usize,
}

impl FakeFs {
    fn new(fail_at: Option<usize>, fail_remove: bool) -> FakeFs {
        FakeFs { exists: false, ops: 0, fail_at, fail_remove, offsets: vec![], writes: 0, reads: 0 }
    }

    fn perform(&mut self, a: DiskAction) -> DiskEvent {
        self.ops += 1;
        if a == DiskAction::Remove {
            if self.fail_remove {
                return DiskEvent::Failed;
            }
            self.exists = false;
            return DiskEvent::Done;
        }
        if Some(self.ops) == self.fail_at {
            return DiskEvent::Failed;
        }
        match a {
            DiskAction::Create { .. } => self.exists = true,
            DiskAction::WriteChunk { .. } => self.writes += 1,
            DiskAction::ReadChunk { .. } => self.reads += 1,
            DiskAction::WriteBlockAt { offset, len } => {
                assert_eq!(len, 4096);
                self.offsets.push(offset);
                self.writes += 1;
            }
            DiskAction::ReadBlockAt { offset, .. } => {
                self.offsets.push(offset);
                self.reads += 1;
            }
            DiskAction::Close => return DiskEvent::Closed { nanos: 1000 + self.ops as u64 },
            _ => {}
        }
        DiskEvent::Done
    }
}

fn drive(probe: &mut DiskProbe, fs: &mut FakeFs) -> Vec<DiskAction> {
    let mut actions = vec![];
    let mut event = DiskEvent::Done;
    loop {
        let a = probe.step(event);
        actions.push(a);
        if a == DiskAction::Finish {
            return actions;
        }
        event = fs.perform(a);
    }
}

#[test]
fn disk_probe_success_path() {
    let mut probe = DiskProbe::new(1, 3);
    let mut fs = FakeFs::new(None, false);
    let actions = drive(&mut probe, &mut fs);
    assert!(!fs.exists);
    assert_eq!(fs.writes, 1024 + 3);
    assert_eq!(fs.reads, 1024 + 3);
    assert_eq!(fs.offsets, vec![0, 4096, 8192, 0, 4096, 8192]);
    assert_eq!(actions[0], DiskAction::Create { buffered: true });
    assert_eq!(actions.iter().filter(|a| **a == DiskAction::Remove).count(), 2);
    assert!(actions.contains(&DiskAction::Create { buffered: false }));
    let r = probe.result().unwrap();
    assert_eq!(r.large_write.amount, 1 << 30);
    assert_eq!(r.large_read.amount, 1 << 30);
    assert_eq!(r.small_write.amount, 3);
    assert_eq!(r.small_read.amount, 3);
    assert!(r.large_write.nanos > 1000);
    assert_eq!(probe.stage, DiskStage::Finished);
}

#[test]
fn disk_probe_removes_the_file_after_a_failed_write() {
    // operation 1 creates the file, operation 11 is the tenth chunk write
    let mut probe = DiskProbe::new(1, 3);
    let mut fs = FakeFs::new(Some(11), false);
    let actions = drive(&mut probe, &mut fs);
    assert!(!fs.exists);
    assert_eq!(actions[actions.len() - 2], DiskAction::Remove);
    assert_eq!(probe.failed_in, Some(DiskPhase::LargeWrite));
    assert!(probe.result().is_none());
}

#[test]
fn disk_probe_removes_the_file_after_any_failure() {
    let total = {
        let mut probe = DiskProbe::new(0, 4);
        let mut fs = FakeFs::new(None, false);
        drive(&mut probe, &mut fs);
        fs.ops
    };
    for k in 1..=total {
        let mut probe = DiskProbe::new(0, 4);
        let mut fs = FakeFs::new(Some(k), false);
        drive(&mut probe, &mut fs);
        assert!(!fs.exists, "failure at operation {}", k);
        assert_eq!(probe.stage, DiskStage::Finished);
    }
}

#[test]
fn disk_probe_small_failure_in_read_phase() {
    let mut probe = DiskProbe::new(0, 2);
    // large phases: create, close, open, close, remove; small write phase:
    // create, two writes, close; then open, and the first read (the 11th) fails
    let mut fs = FakeFs::new(Some(11), false);
    drive(&mut probe, &mut fs);
    assert!(!fs.exists);
    assert_eq!(probe.failed_in, Some(DiskPhase::SmallRead));
}

#[test]
fn disk_probe_reports_a_failed_removal() {
    let mut probe = DiskProbe::new(0, 1);
    let mut fs = FakeFs::new(None, true);
    let actions = drive(&mut probe, &mut fs);
    assert_eq!(*actions.last().unwrap(), DiskAction::Finish);
    assert!(probe.cleanup_failed);
    assert!(probe.result().is_none());
}

#[test]
fn disk_probe_after_finish_stays_finished() {
    let mut probe = DiskProbe::new(0, 0);
    let mut fs = FakeFs::new(None, false);
    drive(&mut probe, &mut fs);
    assert_eq!(probe.step(DiskEvent::Done), DiskAction::Finish);
    let r = probe.result().unwrap();
    assert_eq!(r.small_write.amount, 0);
    assert_eq!(r.large_write.amount, 0);
}
