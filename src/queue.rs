//! A bounded first-in first-out queue of work items that numbers what it
//! accepts.
//!
//! Nothing here blocks: where a caller would wait (the queue is full, or empty
//! and still open) the operation reports so and leaves the queue as it was.
use vstd::prelude::*;
use crate::work::WorkItem;

verus! {

/// Why an item was not accepted.
#[derive(Clone, Copy, Debug, PartialEq, Eq, Structural)]
pub enum EnqueueError {
    /// The queue holds as many items as its capacity: wait for a dequeue.
    Full,
    /// The queue was closed: nothing more is accepted.
    Closed,
}

/// Why no item was handed out.
#[derive(Clone, Copy, Debug, PartialEq, Eq, Structural)]
pub enum DequeueError {
    /// Nothing is pending but the queue is open: wait for an enqueue.
    Empty,
    /// The queue is closed and drained: nothing more will come.
    Closed,
}

/// The abstract state of a work queue.
pub struct QueueModel {
    /// Pending items, oldest first.
    pub items: Seq<WorkItem>,
    pub capacity: nat,
    pub closed: bool,
    /// How many items were ever accepted; also the next sequence number.
    pub submitted: nat,
}

impl QueueModel {
    /// An open queue that has accepted nothing.
    pub open spec fn empty(capacity: nat) -> QueueModel {
        QueueModel { items: Seq::empty(), capacity, closed: false, submitted: 0 }
    }

    /// Never more than `capacity` items are pending, and the pending items
    /// carry the latest sequence numbers handed out, in order.
    pub open spec fn wf(self) -> bool {
        &&& self.items.len() <= self.capacity
        &&& self.items.len() <= self.submitted <= u64::MAX
        &&& forall|i: int|
            0 <= i < self.items.len() ==> #[trigger] self.items[i].seq == self.submitted
                - self.items.len() + i
    }

    /// How many accepted items were handed out.
    pub open spec fn handed_out(self) -> nat {
        (self.submitted - self.items.len()) as nat
    }

    /// Accepting `input` appends it under the next sequence number, unless
    /// the queue is closed or full.
    pub open spec fn enqueue(self, input: u64) -> (QueueModel, Result<u64, EnqueueError>) {
        if self.closed {
            (self, Err(EnqueueError::Closed))
        } else if self.items.len() >= self.capacity {
            (self, Err(EnqueueError::Full))
        } else {
            let item = WorkItem { seq: self.submitted as u64, input };
            (
                QueueModel {
                    items: self.items.push(item),
                    submitted: self.submitted + 1,
                    ..self
                },
                Ok(self.submitted as u64),
            )
        }
    }

    /// Dequeueing removes the oldest pending item, also after the queue was
    /// closed; with nothing pending it reports `Closed` or `Empty`.
    pub open spec fn dequeue(self) -> (QueueModel, Result<WorkItem, DequeueError>) {
        if self.items.len() > 0 {
            (QueueModel { items: self.items.drop_first(), ..self }, Ok(self.items[0]))
        } else if self.closed {
            (self, Err(DequeueError::Closed))
        } else {
            (self, Err(DequeueError::Empty))
        }
    }

    /// Closing keeps what is pending and refuses further items.
    pub open spec fn close(self) -> QueueModel {
        QueueModel { closed: true, ..self }
    }
}

/// One call on a queue, as a caller makes it.
pub enum QueueOp {
    Enqueue(u64),
    Dequeue,
}

/// Applies `ops` in order to `m`: the final state, the inputs that were
/// accepted, and the items that dequeues handed out, each in order.
pub open spec fn run(m: QueueModel, ops: Seq<QueueOp>) -> (QueueModel, Seq<u64>, Seq<WorkItem>)
    decreases ops.len(),
{
    if ops.len() == 0 {
        (m, Seq::empty(), Seq::empty())
    } else {
        let (s, accepted, out) = run(m, ops.drop_last());
        match ops.last() {
            QueueOp::Enqueue(input) => {
                let (next, r) = s.enqueue(input);
                (next, if r is Ok { accepted.push(input) } else { accepted }, out)
            },
            QueueOp::Dequeue => {
                let (next, r) = s.dequeue();
                (next, accepted, if r is Ok { out.push(r->Ok_0) } else { out })
            },
        }
    }
}

/// What repeated calls of `dequeue` return, up to and including the first
/// error.
pub open spec fn drain(m: QueueModel) -> Seq<Result<WorkItem, DequeueError>>
    decreases m.items.len(),
{
    if m.items.len() > 0 {
        seq![m.dequeue().1] + drain(m.dequeue().0)
    } else {
        seq![m.dequeue().1]
    }
}

/// The items numbered from zero that enqueueing `inputs` in order creates.
pub open spec fn numbered(inputs: Seq<u64>) -> Seq<WorkItem> {
    Seq::new(inputs.len(), |k: int| WorkItem { seq: k as u64, input: inputs[k] })
}

proof fn lemma_run_from_empty(capacity: nat, ops: Seq<QueueOp>)
    requires
        ops.len() <= u64::MAX,
    ensures
        ({
            let (s, accepted, out) = run(QueueModel::empty(capacity), ops);
            &&& s.wf()
            &&& s.capacity == capacity
            &&& !s.closed
            &&& s.submitted == accepted.len()
            &&& accepted.len() <= ops.len()
            &&& out + s.items == numbered(accepted)
        }),
    decreases ops.len(),
{
    if ops.len() == 0 {
        assert(Seq::<WorkItem>::empty() + Seq::<WorkItem>::empty() =~= numbered(
            Seq::<u64>::empty(),
        ));
    } else {
        lemma_run_from_empty(capacity, ops.drop_last());
        let (s, accepted, out) = run(QueueModel::empty(capacity), ops.drop_last());
        match ops.last() {
            QueueOp::Enqueue(input) => {
                let (next, r) = s.enqueue(input);
                if r is Ok {
                    let item = WorkItem { seq: accepted.len() as u64, input };
                    assert(numbered(accepted.push(input)) =~= numbered(accepted).push(item));
                    assert(out + next.items =~= (out + s.items).push(item));
                }
            },
            QueueOp::Dequeue => {
                let (next, r) = s.dequeue();
                if r is Ok {
                    assert(out.push(s.items[0]) + next.items =~= out + s.items);
                }
            },
        }
    }
}

proof fn lemma_drain_closed(m: QueueModel)
    requires
        m.closed,
    ensures
        drain(m) == m.items.map_values(|it: WorkItem| Ok::<WorkItem, DequeueError>(it)) + seq![
            Err::<WorkItem, DequeueError>(DequeueError::Closed),
        ],
    decreases m.items.len(),
{
    let done = seq![Err::<WorkItem, DequeueError>(DequeueError::Closed)];
    if m.items.len() > 0 {
        let next = m.dequeue().0;
        lemma_drain_closed(next);
        assert(m.items.map_values(|it: WorkItem| Ok::<WorkItem, DequeueError>(it)) =~= seq![
            Ok::<WorkItem, DequeueError>(m.items[0]),
        ] + next.items.map_values(|it: WorkItem| Ok::<WorkItem, DequeueError>(it)));
        assert(drain(m) =~= m.items.map_values(|it: WorkItem| Ok::<WorkItem, DequeueError>(it))
            + done);
    } else {
        assert(m.items.map_values(|it: WorkItem| Ok::<WorkItem, DequeueError>(it)) + done
            =~= done);
    }
}

/// Whatever enqueues and dequeues interleave on an open, empty queue, once it
/// is closed the items dequeued before and after closing are exactly the
/// accepted inputs, in the order they were accepted and numbered from zero;
/// then dequeue reports `Closed`.
pub proof fn lemma_dequeues_follow_enqueues(capacity: nat, ops: Seq<QueueOp>)
    requires
        ops.len() <= u64::MAX,
    ensures
        ({
            let (s, accepted, out) = run(QueueModel::empty(capacity), ops);
            out.map_values(|it: WorkItem| Ok::<WorkItem, DequeueError>(it)) + drain(s.close())
                == numbered(accepted).map_values(|it: WorkItem| Ok::<WorkItem, DequeueError>(it))
                + seq![Err::<WorkItem, DequeueError>(DequeueError::Closed)]
        }),
{
    lemma_run_from_empty(capacity, ops);
    let (s, accepted, out) = run(QueueModel::empty(capacity), ops);
    lemma_drain_closed(s.close());
    assert(out.map_values(|it: WorkItem| Ok::<WorkItem, DequeueError>(it)) + s.items.map_values(
        |it: WorkItem| Ok::<WorkItem, DequeueError>(it),
    ) =~= numbered(accepted).map_values(|it: WorkItem| Ok::<WorkItem, DequeueError>(it)));
}

/// No operation takes the queue past its capacity; an enqueue into a full,
/// open queue is refused as `Full` and changes nothing, and after one dequeue
/// the same enqueue is accepted.
pub proof fn lemma_capacity_bound(m: QueueModel, input: u64)
    requires
        m.wf(),
    ensures
        m.submitted < u64::MAX ==> m.enqueue(input).0.wf(),
        m.dequeue().0.wf(),
        m.close().wf(),
        m.enqueue(input).0.items.len() <= m.capacity,
        !m.closed && m.items.len() == m.capacity ==> m.enqueue(input) == (
        m,
        Err::<u64, EnqueueError>(EnqueueError::Full),
        ),
        !m.closed && m.items.len() == m.capacity && m.capacity > 0 ==> m.dequeue().0.enqueue(
            input,
        ).1 is Ok,
{
}

/// Whatever enqueues and dequeues interleave, a dequeue hands out the oldest
/// accepted item not yet handed out: the one numbered by how many were handed
/// out before it. Enqueueing and closing leave that count as it was.
pub proof fn lemma_oldest_first(m: QueueModel, input: u64)
    requires
        m.wf(),
    ensures
        m.dequeue().1 is Ok ==> m.dequeue().1->Ok_0.seq == m.handed_out() && m.dequeue().0.handed_out()
            == m.handed_out() + 1,
        m.enqueue(input).0.handed_out() == m.handed_out(),
        m.close().handed_out() == m.handed_out(),
{
}

/// Closing a queue twice leaves it as closing it once does.
pub proof fn lemma_close_idempotent(m: QueueModel)
    ensures
        m.close().close() == m.close(),
{
}

/// A bounded FIFO queue of work items.
pub struct WorkQueue {
    items: std::collections::VecDeque<WorkItem>,
    capacity: usize,
    closed: bool,
    next_seq: u64,
}

impl View for WorkQueue {
    type V = QueueModel;

    closed spec fn view(&self) -> QueueModel {
        QueueModel {
            items: self.items@,
            capacity: self.capacity as nat,
            closed: self.closed,
            submitted: self.next_seq as nat,
        }
    }
}

impl WorkQueue {
    /// An open, empty queue that holds at most `capacity` items.
    pub fn new(capacity: usize) -> (q: WorkQueue)
        ensures
            q@ == QueueModel::empty(capacity as nat),
            q@.wf(),
    {
        WorkQueue {
            items: std::collections::VecDeque::new(),
            capacity,
            closed: false,
            next_seq: 0,
        }
    }

    pub fn capacity(&self) -> (r: usize)
        ensures
            r == self@.capacity,
    {
        self.capacity
    }

    pub fn len(&self) -> (r: usize)
        ensures
            r == self@.items.len(),
    {
        self.items.len()
    }

    pub fn is_closed(&self) -> (r: bool)
        ensures
            r == self@.closed,
    {
        self.closed
    }

    /// How many items were accepted so far.
    pub fn submitted(&self) -> (r: u64)
        ensures
            r == self@.submitted,
    {
        self.next_seq
    }

    /// Appends `input` under the next sequence number and returns that
    /// number; refuses it when the queue is closed or full.
    pub fn try_enqueue(&mut self, input: u64) -> (r: Result<u64, EnqueueError>)
        requires
            old(self)@.wf(),
            old(self)@.submitted < u64::MAX,
        ensures
            (final(self)@, r) == old(self)@.enqueue(input),
            final(self)@.wf(),
    {
        if self.closed {
            return Err(EnqueueError::Closed);
        }
        if self.items.len() >= self.capacity {
            return Err(EnqueueError::Full);
        }
        let seq = self.next_seq;
        self.items.push_back(WorkItem { seq, input });
        self.next_seq = seq + 1;
        Ok(seq)
    }

    /// Removes and returns the oldest pending item.
    pub fn try_dequeue(&mut self) -> (r: Result<WorkItem, DequeueError>)
        requires
            old(self)@.wf(),
        ensures
            (final(self)@, r) == old(self)@.dequeue(),
            final(self)@.wf(),
    {
        match self.items.pop_front() {
            Some(item) => Ok(item),
            None => {
                if self.closed {
                    Err(DequeueError::Closed)
                } else {
                    Err(DequeueError::Empty)
                }
            },
        }
    }

    /// Refuses all further items; pending ones can still be dequeued.
    pub fn close(&mut self)
        requires
            old(self)@.wf(),
        ensures
            final(self)@ == old(self)@.close(),
            final(self)@.wf(),
    {
        self.closed = true;
    }
}

} // verus!
