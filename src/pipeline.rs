//! A whole pipeline stepped by one caller: the queue, the workers, the result
//! channel and the supervisor's tally of what it received.
//!
//! Each method is one step that one participant takes (the supervisor submits,
//! closes or collects; a worker fetches or completes), so any interleaving of
//! participants is a sequence of calls. Between any two calls every accepted
//! item is in exactly one place: pending in the queue, held by a worker,
//! pending in the channel, or received.
use vstd::prelude::*;
use vstd::multiset::Multiset;
use crate::channel::{ChannelModel, RecvError, ResultChannel};
use crate::pool::{Worker, WorkerState};
use crate::queue::{DequeueError, EnqueueError, QueueModel, WorkQueue};
use crate::work::{result_of, Closed, WorkItem, WorkResult};

verus! {

broadcast use vstd::seq_lib::group_to_multiset_ensures, vstd::multiset::group_multiset_axioms;

/// The sequence number a worker holds: one while processing, none otherwise.
pub open spec fn held(s: WorkerState) -> Multiset<u64> {
    match s {
        WorkerState::Processing(item) => Multiset::singleton(item.seq),
        _ => Multiset::empty(),
    }
}

/// The sequence numbers held by all the workers.
pub open spec fn held_all(ws: Seq<WorkerState>) -> Multiset<u64>
    decreases ws.len(),
{
    if ws.len() == 0 {
        Multiset::empty()
    } else {
        held_all(ws.drop_last()).add(held(ws.last()))
    }
}

/// The sequence numbers `0, 1, ..., n - 1`, each once.
pub open spec fn upto(n: nat) -> Multiset<u64> {
    Seq::new(n, |k: int| k as u64).to_multiset()
}

/// The abstract state of a pipeline.
pub struct PipelineModel {
    pub queue: QueueModel,
    pub workers: Seq<WorkerState>,
    pub channel: ChannelModel,
    /// Sequence numbers of the results the supervisor received, in order.
    pub received: Seq<u64>,
}

impl PipelineModel {
    pub open spec fn all_stopped(self) -> bool {
        forall|i: int| 0 <= i < self.workers.len() ==> #[trigger] self.workers[i] is Stopped
    }

    /// Every sequence number that is pending, held or received, counted as
    /// often as it occurs.
    pub open spec fn outstanding(self) -> Multiset<u64> {
        self.queue.items.map_values(|it: WorkItem| it.seq).to_multiset().add(
            held_all(self.workers),
        ).add(self.channel.pending.map_values(|r: WorkResult| r.spec_seq()).to_multiset()).add(
            self.received.to_multiset(),
        )
    }

    /// The supervisor offers `input` to the queue.
    pub open spec fn submit(self, input: u64) -> (PipelineModel, Result<u64, EnqueueError>) {
        let (q, r) = self.queue.enqueue(input);
        (PipelineModel { queue: q, ..self }, r)
    }

    /// The supervisor closes the queue.
    pub open spec fn close_queue(self) -> PipelineModel {
        PipelineModel { queue: self.queue.close(), ..self }
    }

    /// Idle worker `w` dequeues: it holds the item it got, stops on `Closed`,
    /// and stays idle on `Empty`.
    pub open spec fn fetch(self, w: int) -> (PipelineModel, Result<WorkItem, DequeueError>) {
        let (q, r) = self.queue.dequeue();
        let ws = match r {
            Ok(item) => self.workers.update(w, WorkerState::Processing(item)),
            Err(DequeueError::Closed) => self.workers.update(w, WorkerState::Stopped),
            Err(DequeueError::Empty) => self.workers,
        };
        (PipelineModel { queue: q, workers: ws, ..self }, r)
    }

    /// Processing worker `w` turns `outcome` into the result of its item,
    /// sends it and becomes idle.
    pub open spec fn complete(self, w: int, outcome: Result<u64, String>) -> PipelineModel {
        let item = self.workers[w]->Processing_0;
        PipelineModel {
            workers: self.workers.update(w, WorkerState::Idle),
            channel: self.channel.send(result_of(item, outcome)).0,
            ..self
        }
    }

    /// The supervisor receives from the channel and tallies what it got.
    pub open spec fn collect(self) -> (PipelineModel, Result<WorkResult, RecvError>) {
        let (c, r) = self.channel.receive();
        let received = match r {
            Ok(res) => self.received.push(res.spec_seq()),
            Err(_) => self.received,
        };
        (PipelineModel { channel: c, received, ..self }, r)
    }

    /// The supervisor closes the channel if every worker stopped, and says
    /// whether it did.
    pub open spec fn close_results(self) -> (PipelineModel, bool) {
        if self.all_stopped() {
            (PipelineModel { channel: self.channel.close(), ..self }, true)
        } else {
            (self, false)
        }
    }

    /// The queue is well formed, the channel is closed only once every
    /// worker stopped, and each accepted item is in exactly one place.
    pub open spec fn wf(self) -> bool {
        &&& self.queue.wf()
        &&& self.channel.closed ==> self.all_stopped()
        &&& self.outstanding() == upto(self.queue.submitted)
    }
}

proof fn lemma_held_all_update(ws: Seq<WorkerState>, i: int, s: WorkerState)
    requires
        0 <= i < ws.len(),
    ensures
        held_all(ws.update(i, s)).add(held(ws[i])) == held_all(ws).add(held(s)),
    decreases ws.len(),
{
    let u = ws.update(i, s);
    if i == ws.len() - 1 {
        assert(u.drop_last() =~= ws.drop_last());
        assert(held_all(u) == held_all(ws.drop_last()).add(held(s)));
        assert(held_all(ws) == held_all(ws.drop_last()).add(held(ws[i])));
    } else {
        lemma_held_all_update(ws.drop_last(), i, s);
        assert(u.drop_last() =~= ws.drop_last().update(i, s));
        assert(held_all(u) == held_all(ws.drop_last().update(i, s)).add(held(ws.last())));
        assert(held_all(ws) == held_all(ws.drop_last()).add(held(ws.last())));
        assert(ws.drop_last()[i] == ws[i]);
        assert forall|v: u64|
            #[trigger] held_all(u).add(held(ws[i])).count(v) == held_all(ws).add(held(s)).count(
                v,
            ) by {
            assert(held_all(ws.drop_last().update(i, s)).add(held(ws[i])).count(v) == held_all(
                ws.drop_last(),
            ).add(held(s)).count(v));
        }
    }
    assert(held_all(u).add(held(ws[i])) =~= held_all(ws).add(held(s)));
}

proof fn lemma_held_none(ws: Seq<WorkerState>)
    requires
        forall|i: int| 0 <= i < ws.len() ==> !(#[trigger] ws[i] is Processing),
    ensures
        held_all(ws) == Multiset::<u64>::empty(),
    decreases ws.len(),
{
    if ws.len() > 0 {
        lemma_held_none(ws.drop_last());
        assert(held_all(ws) =~= Multiset::<u64>::empty());
    }
}

proof fn lemma_upto_next(n: nat)
    ensures
        upto(n + 1) == upto(n).insert(n as u64),
{
    assert(Seq::new(n + 1, |k: int| k as u64) =~= Seq::new(n, |k: int| k as u64).push(n as u64));
}

proof fn lemma_submit(m: PipelineModel, input: u64)
    requires
        m.wf(),
        m.queue.submitted < u64::MAX,
    ensures
        m.submit(input).0.wf(),
{
    crate::queue::lemma_capacity_bound(m.queue, input);
    let (q, r) = m.queue.enqueue(input);
    if r is Ok {
        let n = m.queue.submitted;
        let item = WorkItem { seq: n as u64, input };
        assert(q.items.map_values(|it: WorkItem| it.seq) =~= m.queue.items.map_values(
            |it: WorkItem| it.seq,
        ).push(n as u64));
        lemma_upto_next(n);
        assert(m.submit(input).0.outstanding() =~= m.outstanding().insert(n as u64));
    }
}

proof fn lemma_fetch(m: PipelineModel, w: int)
    requires
        m.wf(),
        0 <= w < m.workers.len(),
        m.workers[w] is Idle,
    ensures
        m.fetch(w).0.wf(),
{
    crate::queue::lemma_capacity_bound(m.queue, 0);
    let (q, r) = m.queue.dequeue();
    let next = m.fetch(w).0;
    match r {
        Ok(item) => {
            let qs = m.queue.items.map_values(|it: WorkItem| it.seq);
            assert(q.items.map_values(|it: WorkItem| it.seq) =~= qs.remove(0));
            assert(qs[0] == item.seq);
            let x = item.seq;
            lemma_held_all_update(m.workers, w, WorkerState::Processing(item));
            assert(held_all(next.workers) =~= held_all(m.workers).insert(x));
            assert(qs.remove(0).to_multiset() == qs.to_multiset().remove(x));
            assert(qs.to_multiset().count(x) > 0);
            assert(!m.all_stopped());
            assert(next.outstanding() =~= m.outstanding());
        },
        Err(DequeueError::Closed) => {
            lemma_held_all_update(m.workers, w, WorkerState::Stopped);
            let u = m.workers.update(w, WorkerState::Stopped);
            assert(next.workers == u);
            assert(held(m.workers[w]) =~= Multiset::<u64>::empty());
            assert(held(WorkerState::Stopped) =~= Multiset::<u64>::empty());
            assert forall|v: u64| #[trigger] held_all(u).count(v) == held_all(m.workers).count(v) by {
                assert(held_all(u).add(held(m.workers[w])).count(v) == held_all(m.workers).add(
                    held(WorkerState::Stopped),
                ).count(v));
            }
            assert(held_all(next.workers) =~= held_all(m.workers));
            assert(next.outstanding() =~= m.outstanding());
            assert(!m.all_stopped());
        },
        Err(DequeueError::Empty) => {},
    }
}

proof fn lemma_complete(m: PipelineModel, w: int, outcome: Result<u64, String>)
    requires
        m.wf(),
        0 <= w < m.workers.len(),
        m.workers[w] is Processing,
    ensures
        m.complete(w, outcome).wf(),
{
    let item = m.workers[w]->Processing_0;
    let next = m.complete(w, outcome);
    assert(!m.all_stopped());
    lemma_held_all_update(m.workers, w, WorkerState::Idle);
    assert(held_all(next.workers).insert(item.seq) =~= held_all(m.workers));
    assert(next.channel.pending.map_values(|r: WorkResult| r.spec_seq()) =~= m.channel.pending.map_values(
        |r: WorkResult| r.spec_seq(),
    ).push(item.seq));
    assert(next.outstanding() =~= m.outstanding());
}

proof fn lemma_collect(m: PipelineModel)
    requires
        m.wf(),
    ensures
        m.collect().0.wf(),
{
    let (c, r) = m.channel.receive();
    let next = m.collect().0;
    if let Ok(res) = r {
        let cs = m.channel.pending.map_values(|r: WorkResult| r.spec_seq());
        assert(c.pending.map_values(|r: WorkResult| r.spec_seq()) =~= cs.remove(0));
        assert(cs[0] == res.spec_seq());
        assert(cs.remove(0).to_multiset() == cs.to_multiset().remove(res.spec_seq()));
        assert(cs.to_multiset().count(res.spec_seq()) > 0);
        assert(next.outstanding() =~= m.outstanding());
    }
}

/// Every step keeps the pipeline well formed, so whatever order the
/// participants act in, each accepted item stays in exactly one place: none is
/// lost and none is duplicated.
pub proof fn lemma_steps_keep_wf(
    m: PipelineModel,
    input: u64,
    w: int,
    outcome: Result<u64, String>,
)
    requires
        m.wf(),
    ensures
        m.queue.submitted < u64::MAX ==> m.submit(input).0.wf(),
        m.close_queue().wf(),
        0 <= w < m.workers.len() && m.workers[w] is Idle ==> m.fetch(w).0.wf(),
        0 <= w < m.workers.len() && m.workers[w] is Processing ==> m.complete(w, outcome).wf(),
        m.collect().0.wf(),
        m.close_results().0.wf(),
{
    if m.queue.submitted < u64::MAX {
        lemma_submit(m, input);
    }
    crate::queue::lemma_capacity_bound(m.queue, 0);
    assert(m.close_queue().outstanding() =~= m.outstanding());
    if 0 <= w < m.workers.len() && m.workers[w] is Idle {
        lemma_fetch(m, w);
    }
    if 0 <= w < m.workers.len() && m.workers[w] is Processing {
        lemma_complete(m, w, outcome);
    }
    lemma_collect(m);
    assert(m.close_results().0.outstanding() =~= m.outstanding());
}

proof fn lemma_upto_count(n: nat, k: u64)
    requires
        n <= u64::MAX + 1,
    ensures
        upto(n).count(k) == (if (k as nat) < n {
            1nat
        } else {
            0nat
        }),
    decreases n,
{
    if n == 0 {
        assert(upto(0) =~= Multiset::<u64>::empty());
    } else {
        lemma_upto_count((n - 1) as nat, k);
        lemma_upto_next((n - 1) as nat);
    }
}

/// Once nothing is pending in the queue or the channel and every worker has
/// stopped, the supervisor has received exactly one result for each accepted
/// item: each sequence number below the number of accepted items exactly once,
/// and no other.
pub proof fn lemma_one_result_per_item(m: PipelineModel)
    requires
        m.wf(),
        m.queue.items.len() == 0,
        m.all_stopped(),
        m.channel.pending.len() == 0,
    ensures
        m.received.len() == m.queue.submitted,
        forall|k: u64|
            #[trigger] m.received.to_multiset().count(k) == (if (k as nat) < m.queue.submitted {
                1nat
            } else {
                0nat
            }),
{
    lemma_held_none(m.workers);
    assert(m.queue.items.map_values(|it: WorkItem| it.seq) =~= Seq::<u64>::empty());
    assert(m.channel.pending.map_values(|r: WorkResult| r.spec_seq()) =~= Seq::<u64>::empty());
    assert(m.outstanding() =~= m.received.to_multiset());
    assert forall|k: u64|
        #[trigger] m.received.to_multiset().count(k) == (if (k as nat) < m.queue.submitted {
            1nat
        } else {
            0nat
        }) by {
        lemma_upto_count(m.queue.submitted, k);
    }
    assert(upto(m.queue.submitted).len() == m.queue.submitted);
}

/// A pipeline of a bounded queue, a fixed set of workers and a result
/// channel.
pub struct Pipeline {
    queue: WorkQueue,
    workers: Vec<Worker>,
    channel: ResultChannel,
    received: Vec<u64>,
}

impl View for Pipeline {
    type V = PipelineModel;

    closed spec fn view(&self) -> PipelineModel {
        PipelineModel {
            queue: self.queue@,
            workers: self.workers@.map_values(|w: Worker| w@),
            channel: self.channel@,
            received: self.received@,
        }
    }
}

impl Pipeline {
    /// A pipeline with an empty queue of the given capacity, `n_workers` idle
    /// workers and an empty channel.
    pub fn new(capacity: usize, n_workers: usize) -> (p: Pipeline)
        ensures
            p@.queue == QueueModel::empty(capacity as nat),
            p@.workers == Seq::new(n_workers as nat, |i: int| WorkerState::Idle),
            p@.channel == ChannelModel::empty(),
            p@.received == Seq::<u64>::empty(),
            p@.wf(),
    {
        let mut workers: Vec<Worker> = Vec::new();
        let mut i: usize = 0;
        while i < n_workers
            invariant
                i <= n_workers,
                workers@.len() == i,
                forall|j: int| 0 <= j < i ==> #[trigger] workers@[j]@ == WorkerState::Idle,
            decreases n_workers - i,
        {
            workers.push(Worker::new(i as u64));
            i = i + 1;
        }
        let p = Pipeline {
            queue: WorkQueue::new(capacity),
            workers,
            channel: ResultChannel::new(),
            received: Vec::new(),
        };
        proof {
            assert(p@.workers =~= Seq::new(n_workers as nat, |i: int| WorkerState::Idle));
            lemma_held_none(p@.workers);
            assert(p@.outstanding() =~= upto(0));
        }
        p
    }

    pub fn queue(&self) -> (r: &WorkQueue)
        ensures
            r@ == self@.queue,
    {
        &self.queue
    }

    pub fn channel(&self) -> (r: &ResultChannel)
        ensures
            r@ == self@.channel,
    {
        &self.channel
    }

    pub fn n_workers(&self) -> (r: usize)
        ensures
            r == self@.workers.len(),
    {
        self.workers.len()
    }

    /// The state of worker `w`.
    pub fn worker_state(&self, w: usize) -> (r: WorkerState)
        requires
            w < self@.workers.len(),
        ensures
            r == self@.workers[w as int],
    {
        self.workers[w].state()
    }

    /// Sequence numbers of the results received so far, in order.
    pub fn received(&self) -> (r: &Vec<u64>)
        ensures
            r@ == self@.received,
    {
        &self.received
    }

    /// The supervisor offers `input` to the queue; see `WorkQueue::try_enqueue`.
    pub fn submit(&mut self, input: u64) -> (r: Result<u64, EnqueueError>)
        requires
            old(self)@.wf(),
            old(self)@.queue.submitted < u64::MAX,
        ensures
            (final(self)@, r) == old(self)@.submit(input),
            final(self)@.wf(),
    {
        proof {
            lemma_submit(self@, input);
        }
        self.queue.try_enqueue(input)
    }

    /// The supervisor closes the queue once submission is complete.
    pub fn close_queue(&mut self)
        requires
            old(self)@.wf(),
        ensures
            final(self)@ == old(self)@.close_queue(),
            final(self)@.wf(),
    {
        proof {
            lemma_steps_keep_wf(self@, 0, 0, Ok(0));
        }
        self.queue.close();
    }

    /// Idle worker `w` takes the oldest pending item, or stops when the queue
    /// is closed and drained; on `Empty` it stays idle and should wait.
    pub fn fetch(&mut self, w: usize) -> (r: Result<WorkItem, DequeueError>)
        requires
            old(self)@.wf(),
            w < old(self)@.workers.len(),
            old(self)@.workers[w as int] is Idle,
        ensures
            (final(self)@, r) == old(self)@.fetch(w as int),
            final(self)@.wf(),
    {
        proof {
            lemma_fetch(self@, w as int);
        }
        let r = self.queue.try_dequeue();
        match r {
            Ok(item) => {
                self.workers[w].accept(Ok(item));
            },
            Err(DequeueError::Closed) => {
                self.workers[w].accept(Err(Closed));
            },
            Err(DequeueError::Empty) => {},
        }
        proof {
            assert(self@.workers =~= old(self)@.fetch(w as int).0.workers);
        }
        r
    }

    /// Processing worker `w` reports the outcome of computing its item: the
    /// result goes to the channel and the worker becomes idle.
    pub fn complete(&mut self, w: usize, outcome: Result<u64, String>)
        requires
            old(self)@.wf(),
            w < old(self)@.workers.len(),
            old(self)@.workers[w as int] is Processing,
        ensures
            final(self)@ == old(self)@.complete(w as int, outcome),
            final(self)@.wf(),
    {
        proof {
            lemma_complete(self@, w as int, outcome);
        }
        let result = self.workers[w].complete(outcome);
        let _ = self.channel.send(result);
        proof {
            assert(self@.workers =~= old(self)@.complete(w as int, outcome).workers);
        }
    }

    /// The supervisor takes the oldest pending result and tallies it.
    pub fn collect(&mut self) -> (r: Result<WorkResult, RecvError>)
        requires
            old(self)@.wf(),
        ensures
            (final(self)@, r) == old(self)@.collect(),
            final(self)@.wf(),
    {
        proof {
            lemma_collect(self@);
        }
        let r = self.channel.try_receive();
        if let Ok(res) = &r {
            self.received.push(res.seq());
        }
        r
    }

    /// Whether every worker has stopped: the condition that joining the pool
    /// waits for.
    pub fn all_stopped(&self) -> (r: bool)
        ensures
            r == self@.all_stopped(),
    {
        let mut i: usize = 0;
        while i < self.workers.len()
            invariant
                i <= self.workers@.len(),
                forall|j: int| 0 <= j < i ==> #[trigger] self@.workers[j] is Stopped,
            decreases self.workers@.len() - i,
        {
            if !self.workers[i].is_stopped() {
                assert(!(self@.workers[i as int] is Stopped));
                return false;
            }
            i = i + 1;
        }
        true
    }

    /// The supervisor closes the channel, which it may do only once every
    /// worker has stopped; returns whether it did.
    pub fn close_results(&mut self) -> (r: bool)
        requires
            old(self)@.wf(),
        ensures
            (final(self)@, r) == old(self)@.close_results(),
            final(self)@.wf(),
    {
        proof {
            lemma_steps_keep_wf(self@, 0, 0, Ok(0));
        }
        if self.all_stopped() {
            self.channel.close();
            true
        } else {
            false
        }
    }
}

} // verus!
