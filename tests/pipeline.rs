use idioms::channel::RecvError;
use idioms::pipeline::Pipeline;
use idioms::pool::{Worker, WorkerState};
use idioms::queue::{DequeueError, EnqueueError};
use idioms::work::{Closed, WorkItem, WorkResult};

fn square(x: u64) -> Result<u64, String> {
    x.checked_mul(x).ok_or_else(|| "overflow".to_string())
}

fn drain_results(p: &mut Pipeline) -> Vec<WorkResult> {
    let mut out = Vec::new();
    loop {
        match p.collect() {
            Ok(r) => out.push(r),
            Err(RecvError::Empty) => panic!("channel open with nothing pending"),
            Err(RecvError::Closed) => return out,
        }
    }
}

#[test]
fn one_worker_squares_three_items_through_a_queue_of_two() {
    let (a, b, c) = (2u64, 3u64, 4u64);
    let mut p = Pipeline::new(2, 1);
    assert_eq!(p.submit(a), Ok(0));
    assert_eq!(p.submit(b), Ok(1));
    // the queue is full: C waits until the worker takes A
    assert_eq!(p.submit(c), Err(EnqueueError::Full));
    assert_eq!(p.fetch(0), Ok(WorkItem { seq: 0, input: a }));
    assert_eq!(p.submit(c), Ok(2));
    p.close_queue();
    p.complete(0, square(a));
    loop {
        match p.fetch(0) {
            Ok(item) => p.complete(0, square(item.input)),
            Err(DequeueError::Closed) => break,
            Err(DequeueError::Empty) => panic!("closed queue reported empty"),
        }
    }
    assert_eq!(p.worker_state(0), WorkerState::Stopped);
    assert!(p.close_results());
    let mut outputs: Vec<u64> = drain_results(&mut p)
        .into_iter()
        .map(|r| match r {
            WorkResult::Done { output, .. } => output,
            WorkResult::Failed { .. } => panic!("square failed"),
        })
        .collect();
    outputs.sort();
    assert_eq!(outputs, vec![a * a, b * b, c * c]);
}

#[test]
fn three_workers_no_items_stop_with_no_results() {
    let mut p = Pipeline::new(4, 3);
    p.close_queue();
    assert!(!p.all_stopped());
    assert!(!p.close_results());
    for w in 0..3 {
        assert_eq!(p.fetch(w), Err(DequeueError::Closed));
        assert_eq!(p.worker_state(w), WorkerState::Stopped);
    }
    assert!(p.all_stopped());
    assert!(p.close_results());
    assert_eq!(p.collect(), Err(RecvError::Closed));
    assert!(p.received().is_empty());
}

#[test]
fn failing_item_is_reported_and_others_go_on() {
    let mut p = Pipeline::new(4, 2);
    for input in [1u64, 2, 3] {
        assert!(p.submit(input).is_ok());
    }
    p.close_queue();
    assert_eq!(p.fetch(0), Ok(WorkItem { seq: 0, input: 1 }));
    assert_eq!(p.fetch(1), Ok(WorkItem { seq: 1, input: 2 }));
    p.complete(1, Err("division by zero".to_string()));
    assert_eq!(p.fetch(1), Ok(WorkItem { seq: 2, input: 3 }));
    p.complete(0, Ok(10));
    p.complete(1, Ok(30));
    assert_eq!(p.fetch(0), Err(DequeueError::Closed));
    assert_eq!(p.fetch(1), Err(DequeueError::Closed));
    assert!(p.close_results());
    let results = drain_results(&mut p);
    assert_eq!(
        results,
        vec![
            WorkResult::Failed { seq: 1, cause: "division by zero".to_string() },
            WorkResult::Done { seq: 0, output: 10 },
            WorkResult::Done { seq: 2, output: 30 },
        ]
    );
}

#[test]
fn every_item_yields_exactly_one_result() {
    let n: u64 = 25;
    let mut p = Pipeline::new(3, 4);
    let mut next_input: u64 = 0;
    let mut closed = false;
    let mut turn: usize = 0;
    while !p.all_stopped() {
        if !closed {
            match p.submit(next_input) {
                Ok(_) => {
                    next_input += 1;
                    if next_input == n {
                        p.close_queue();
                        closed = true;
                    }
                }
                Err(EnqueueError::Full) => {}
                Err(EnqueueError::Closed) => panic!("queue closed early"),
            }
        }
        let w = turn % 4;
        turn += 1;
        match p.worker_state(w) {
            WorkerState::Idle => {
                let _ = p.fetch(w);
            }
            WorkerState::Processing(item) => {
                if item.seq % 5 == 0 {
                    p.complete(w, Err("rejected".to_string()));
                } else {
                    p.complete(w, Ok(item.input + 100));
                }
            }
            WorkerState::Stopped => {}
        }
        if turn % 3 == 0 {
            let _ = p.collect();
        }
    }
    assert!(p.close_results());
    let _ = drain_results(&mut p);
    let mut seqs = p.received().clone();
    seqs.sort();
    assert_eq!(seqs, (0..n).collect::<Vec<u64>>());
}

#[test]
fn worker_holds_item_until_complete() {
    let mut w = Worker::new(7);
    assert_eq!(w.id(), 7);
    assert_eq!(w.state(), WorkerState::Idle);
    let item = WorkItem { seq: 3, input: 12 };
    assert_eq!(w.accept(Ok(item)), Some(item));
    assert_eq!(w.state(), WorkerState::Processing(item));
    assert_eq!(w.complete(Ok(144)), WorkResult::Done { seq: 3, output: 144 });
    assert_eq!(w.state(), WorkerState::Idle);
    assert_eq!(w.accept(Err(Closed)), None);
    assert!(w.is_stopped());
}

#[test]
fn worker_reports_failure_as_result() {
    let mut w = Worker::new(0);
    let item = WorkItem { seq: 9, input: 1 };
    assert_eq!(w.accept(Ok(item)), Some(item));
    assert_eq!(
        w.complete(Err("bad input".to_string())),
        WorkResult::Failed { seq: 9, cause: "bad input".to_string() }
    );
    assert_eq!(w.state(), WorkerState::Idle);
}
