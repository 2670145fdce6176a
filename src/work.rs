//! Work items and the results that workers produce from them.
use vstd::prelude::*;

verus! {

/// A unit of input together with the sequence number it was given when it
/// was submitted.
#[derive(Clone, Copy, Debug, PartialEq, Eq, Structural)]
pub struct WorkItem {
    pub seq: u64,
    pub input: u64,
}

/// The outcome of one work item: its output, or the cause of its failure.
#[derive(Clone, Debug, PartialEq, Eq)]
pub enum WorkResult {
    Done { seq: u64, output: u64 },
    Failed { seq: u64, cause: String },
}

/// The terminal status of a queue or channel: nothing more will come.
#[derive(Clone, Copy, Debug, PartialEq, Eq, Structural)]
pub struct Closed;

impl WorkResult {
    /// The sequence number of the item this result belongs to.
    pub open spec fn spec_seq(&self) -> u64 {
        match self {
            WorkResult::Done { seq, .. } => *seq,
            WorkResult::Failed { seq, .. } => *seq,
        }
    }

    pub fn seq(&self) -> (r: u64)
        ensures
            r == self.spec_seq(),
    {
        match self {
            WorkResult::Done { seq, .. } => *seq,
            WorkResult::Failed { seq, .. } => *seq,
        }
    }

    pub fn is_failed(&self) -> (r: bool)
        ensures
            r == (self is Failed),
    {
        match self {
            WorkResult::Done { .. } => false,
            WorkResult::Failed { .. } => true,
        }
    }
}

/// The result that computing `item` with `outcome` gives: the output on
/// success, the cause of the error on failure, under the item's sequence number.
pub open spec fn result_of(item: WorkItem, outcome: Result<u64, String>) -> WorkResult {
    match outcome {
        Ok(output) => WorkResult::Done { seq: item.seq, output },
        Err(cause) => WorkResult::Failed { seq: item.seq, cause },
    }
}

/// Turns the outcome of computing `item` into its result.
pub fn make_result(item: WorkItem, outcome: Result<u64, String>) -> (r: WorkResult)
    ensures
        r == result_of(item, outcome),
{
    match outcome {
        Ok(output) => WorkResult::Done { seq: item.seq, output },
        Err(cause) => WorkResult::Failed { seq: item.seq, cause },
    }
}

} // verus!
