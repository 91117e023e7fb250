//! The decisions of the sampling worker. The worker itself, which reads the
//! clock and the host, encodes what it read and sleeps, lives outside this
//! library; after each cycle it reports what the cycle produced and is told
//! what to do with it.

use vstd::prelude::*;

verus! {

/// The pause between the end of one sampling cycle and the start of the next,
/// in seconds. The time a cycle itself takes comes on top of it.
pub const UPDATE_INTERVAL_SECS: u64 = 60;

/// The length of a run of failed cycles at which the run is reported.
pub const REPORTED_FAILURES: u32 = 3;

/// What one sampling cycle produced.
pub enum Cycle {
    /// A sample taken at `timestamp`, in its encoded form.
    Sampled { timestamp: u64, payload: Vec<u8> },
    /// Nothing: the host could not be read or the sample could not be encoded.
    Failed,
}

/// What the worker does at the end of a cycle, before it sleeps.
pub enum Action {
    /// Offer the sample to the store.
    Append { timestamp: u64, payload: Vec<u8> },
    /// Let the cycle go.
    Skip,
    /// Let the cycle go and report that `REPORTED_FAILURES` cycles in a row
    /// have failed.
    Report,
}

/// The state of the sampling worker between cycles.
pub struct Producer {
    failures: u32,
}

/// The action that follows `cycle` after `failures` failed cycles in a row.
/// A sample is always offered to the store. A failed cycle is let go, and
/// reported when it is the one that brings the run to `REPORTED_FAILURES`.
pub open spec fn action_after(failures: nat, cycle: Cycle) -> Action {
    match cycle {
        Cycle::Sampled { timestamp, payload } => Action::Append { timestamp, payload },
        Cycle::Failed => if failures + 1 == REPORTED_FAILURES {
            Action::Report
        } else {
            Action::Skip
        },
    }
}

/// The number of failed cycles in a row once `cycle` has followed `failures`
/// of them. The count stops at the largest value it can hold.
pub open spec fn failures_after(failures: nat, cycle: Cycle) -> nat {
    match cycle {
        Cycle::Sampled { .. } => 0,
        Cycle::Failed => if failures < u32::MAX {
            failures + 1
        } else {
            failures
        },
    }
}

impl Producer {
    /// The number of cycles that have failed since the last one that
    /// produced a sample.
    pub closed spec fn failures(&self) -> nat {
        self.failures as nat
    }

    /// A worker that has not failed yet.
    pub fn new() -> (producer: Producer)
        ensures
            producer.failures() == 0,
    {
        Producer { failures: 0 }
    }

    /// The number of cycles that have failed since the last one that
    /// produced a sample.
    pub fn consecutive_failures(&self) -> (count: u32)
        ensures
            count == self.failures(),
    {
        self.failures
    }

    /// Takes note of what a cycle produced and says what to do with it. No
    /// outcome ends the worker: after every action it sleeps and starts the
    /// next cycle.
    pub fn step(&mut self, cycle: Cycle) -> (action: Action)
        ensures
            action == action_after(old(self).failures(), cycle),
            final(self).failures() == failures_after(old(self).failures(), cycle),
    {
        match cycle {
            Cycle::Sampled { timestamp, payload } => {
                self.failures = 0;
                Action::Append { timestamp, payload }
            },
            Cycle::Failed => {
                if self.failures < u32::MAX {
                    self.failures = self.failures + 1;
                }
                if self.failures == REPORTED_FAILURES {
                    Action::Report
                } else {
                    Action::Skip
                }
            },
        }
    }
}

} // verus!
