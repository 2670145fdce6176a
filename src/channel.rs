//! A channel of results from many producers to one consumer.
//!
//! As with the queue, nothing here blocks: a receive on an empty, open channel
//! reports `Empty` and the caller decides how to wait.
use vstd::prelude::*;
use crate::work::{Closed, WorkResult};

verus! {

/// Why no result was handed out.
#[derive(Clone, Copy, Debug, PartialEq, Eq, Structural)]
pub enum RecvError {
    /// Nothing is pending but the channel is open: wait for a send.
    Empty,
    /// The channel is closed and drained: nothing more will come.
    Closed,
}

/// The abstract state of a result channel.
pub struct ChannelModel {
    /// Results sent and not yet received, oldest first.
    pub pending: Seq<WorkResult>,
    pub closed: bool,
}

impl ChannelModel {
    /// An open channel with nothing pending.
    pub open spec fn empty() -> ChannelModel {
        ChannelModel { pending: Seq::empty(), closed: false }
    }

    /// Sending appends the result, unless the channel is closed.
    pub open spec fn send(self, r: WorkResult) -> (ChannelModel, Result<(), Closed>) {
        if self.closed {
            (self, Err(Closed))
        } else {
            (ChannelModel { pending: self.pending.push(r), ..self }, Ok(()))
        }
    }

    /// Receiving removes the oldest pending result, also after the channel was
    /// closed; with nothing pending it reports `Closed` or `Empty`.
    pub open spec fn receive(self) -> (ChannelModel, Result<WorkResult, RecvError>) {
        if self.pending.len() > 0 {
            (ChannelModel { pending: self.pending.drop_first(), ..self }, Ok(self.pending[0]))
        } else if self.closed {
            (self, Err(RecvError::Closed))
        } else {
            (self, Err(RecvError::Empty))
        }
    }

    /// Closing keeps what is pending and refuses further sends.
    pub open spec fn close(self) -> ChannelModel {
        ChannelModel { closed: true, ..self }
    }
}

/// Closing a channel twice leaves it as closing it once does.
pub proof fn lemma_close_idempotent(m: ChannelModel)
    ensures
        m.close().close() == m.close(),
{
}

/// A channel of work results.
pub struct ResultChannel {
    pending: Vec<WorkResult>,
    closed: bool,
}

impl View for ResultChannel {
    type V = ChannelModel;

    closed spec fn view(&self) -> ChannelModel {
        ChannelModel { pending: self.pending@, closed: self.closed }
    }
}

impl ResultChannel {
    /// An open channel with nothing pending.
    pub fn new() -> (c: ResultChannel)
        ensures
            c@ == ChannelModel::empty(),
    {
        ResultChannel { pending: Vec::new(), closed: false }
    }

    pub fn len(&self) -> (r: usize)
        ensures
            r == self@.pending.len(),
    {
        self.pending.len()
    }

    pub fn is_closed(&self) -> (r: bool)
        ensures
            r == self@.closed,
    {
        self.closed
    }

    /// Appends a result; fails once the channel is closed.
    pub fn send(&mut self, r: WorkResult) -> (res: Result<(), Closed>)
        ensures
            (final(self)@, res) == old(self)@.send(r),
    {
        if self.closed {
            Err(Closed)
        } else {
            self.pending.push(r);
            Ok(())
        }
    }

    /// Removes and returns the oldest pending result.
    pub fn try_receive(&mut self) -> (res: Result<WorkResult, RecvError>)
        ensures
            (final(self)@, res) == old(self)@.receive(),
    {
        if self.pending.len() > 0 {
            Ok(self.pending.remove(0))
        } else if self.closed {
            Err(RecvError::Closed)
        } else {
            Err(RecvError::Empty)
        }
    }

    /// Refuses all further sends; pending results can still be received.
    pub fn close(&mut self)
        ensures
            final(self)@ == old(self)@.close(),
    {
        self.closed = true;
    }
}

} // verus!
