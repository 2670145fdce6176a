//! The decisions of one worker: take an item, turn its outcome into a result,
//! stop when the queue is closed.
//!
//! The worker owns the item it is processing; dequeueing, computing and
//! sending happen around these calls.
use vstd::prelude::*;
use crate::work::{make_result, result_of, Closed, WorkItem, WorkResult};

verus! {

/// Where a worker stands.
#[derive(Clone, Copy, Debug, PartialEq, Eq, Structural)]
pub enum WorkerState {
    /// Waiting for an item.
    Idle,
    /// Holding an item whose outcome is awaited.
    Processing(WorkItem),
    /// Saw the queue closed and drained; takes nothing more.
    Stopped,
}

/// One worker of a pool.
pub struct Worker {
    id: u64,
    state: WorkerState,
}

impl View for Worker {
    type V = WorkerState;

    closed spec fn view(&self) -> WorkerState {
        self.state
    }
}

impl Worker {
    /// The number the worker was created with.
    pub closed spec fn spec_id(&self) -> u64 {
        self.id
    }

    /// An idle worker.
    pub fn new(id: u64) -> (w: Worker)
        ensures
            w@ == WorkerState::Idle,
            w.spec_id() == id,
    {
        Worker { id, state: WorkerState::Idle }
    }

    pub fn id(&self) -> (r: u64)
        ensures
            r == self.spec_id(),
    {
        self.id
    }

    pub fn state(&self) -> (r: WorkerState)
        ensures
            r == self@,
    {
        self.state
    }

    pub fn is_stopped(&self) -> (r: bool)
        ensures
            r == (self@ is Stopped),
    {
        match self.state {
            WorkerState::Stopped => true,
            _ => false,
        }
    }

    /// Takes what a dequeue returned: an item is held for processing and
    /// handed back to be computed; `Closed` stops the worker.
    pub fn accept(&mut self, next: Result<WorkItem, Closed>) -> (r: Option<WorkItem>)
        requires
            old(self)@ is Idle,
        ensures
            final(self).spec_id() == old(self).spec_id(),
            match next {
                Ok(item) => final(self)@ == WorkerState::Processing(item) && r == Some(item),
                Err(_) => final(self)@ == WorkerState::Stopped && r is None,
            },
    {
        match next {
            Ok(item) => {
                self.state = WorkerState::Processing(item);
                Some(item)
            },
            Err(_) => {
                self.state = WorkerState::Stopped;
                None
            },
        }
    }

    /// Releases the held item and returns its result, a failure included:
    /// one item's error ends nothing but that item.
    pub fn complete(&mut self, outcome: Result<u64, String>) -> (r: WorkResult)
        requires
            old(self)@ is Processing,
        ensures
            final(self).spec_id() == old(self).spec_id(),
            final(self)@ == WorkerState::Idle,
            r == result_of(old(self)@->Processing_0, outcome),
    {
        let item = match self.state {
            WorkerState::Processing(item) => item,
            _ => vstd::pervasive::unreached(),
        };
        self.state = WorkerState::Idle;
        make_result(item, outcome)
    }
}

} // verus!
