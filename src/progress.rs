//! The consumer's view of a scan: counters kept by the single task that
//! reads the progress stream, updated only from the events it receives.

use vstd::prelude::*;
use crate::record::ScanProgress;

verus! {

/// `n + 1`, held at the largest value.
pub open spec fn bump(n: u64) -> u64 {
    if n < u64::MAX { (n + 1) as u64 } else { n }
}

fn bump_exec(n: u64) -> (r: u64)
    ensures
        r == bump(n),
{
    if n < u64::MAX { n + 1 } else { n }
}

/// Counts of the events received so far, and the size of the final list
/// once the scan is complete.
#[derive(Debug, Clone, Copy, PartialEq, Eq, Structural)]
pub struct ProgressTally {
    pub found: u64,
    pub processing: u64,
    pub extracted: u64,
    pub duplicates: u64,
    pub errors: u64,
    pub completed: Option<usize>,
}

/// The tally after receiving `ev`.
pub open spec fn tally_after(t: ProgressTally, ev: ScanProgress) -> ProgressTally {
    match ev {
        ScanProgress::Found(_) => ProgressTally { found: bump(t.found), ..t },
        ScanProgress::Processing(_) => ProgressTally { processing: bump(t.processing), ..t },
        ScanProgress::Extracted(_, _) => ProgressTally { extracted: bump(t.extracted), ..t },
        ScanProgress::DuplicateDetected(_, _) => ProgressTally { duplicates: bump(t.duplicates), ..t },
        ScanProgress::Error(_, _) => ProgressTally { errors: bump(t.errors), ..t },
        ScanProgress::Complete(list, _) => ProgressTally { completed: Some(list@.len() as usize), ..t },
    }
}

impl ProgressTally {
    /// Nothing received yet.
    pub fn new() -> (r: ProgressTally)
        ensures
            r == (ProgressTally {
                found: 0,
                processing: 0,
                extracted: 0,
                duplicates: 0,
                errors: 0,
                completed: None,
            }),
    {
        ProgressTally { found: 0, processing: 0, extracted: 0, duplicates: 0, errors: 0, completed: None }
    }

    /// Records one received event.
    pub fn record(&mut self, ev: &ScanProgress)
        ensures
            *final(self) == tally_after(*old(self), *ev),
    {
        match ev {
            ScanProgress::Found(_) => {
                self.found = bump_exec(self.found);
            },
            ScanProgress::Processing(_) => {
                self.processing = bump_exec(self.processing);
            },
            ScanProgress::Extracted(_, _) => {
                self.extracted = bump_exec(self.extracted);
            },
            ScanProgress::DuplicateDetected(_, _) => {
                self.duplicates = bump_exec(self.duplicates);
            },
            ScanProgress::Error(_, _) => {
                self.errors = bump_exec(self.errors);
            },
            ScanProgress::Complete(list, _) => {
                self.completed = Some(list.len());
            },
        }
    }

    /// Whether the terminal event has been received.
    pub fn is_complete(&self) -> (r: bool)
        ensures
            r == self.completed is Some,
    {
        self.completed.is_some()
    }
}

} // verus!
