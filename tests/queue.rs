use idioms::channel::{RecvError, ResultChannel};
use idioms::queue::{DequeueError, EnqueueError, WorkQueue};
use idioms::work::{make_result, Closed, WorkItem, WorkResult};

#[test]
fn dequeue_returns_items_in_order_then_closed() {
    let mut q = WorkQueue::new(4);
    for input in [7u64, 3, 9] {
        assert!(q.try_enqueue(input).is_ok());
    }
    q.close();
    assert_eq!(q.try_dequeue(), Ok(WorkItem { seq: 0, input: 7 }));
    assert_eq!(q.try_dequeue(), Ok(WorkItem { seq: 1, input: 3 }));
    assert_eq!(q.try_dequeue(), Ok(WorkItem { seq: 2, input: 9 }));
    assert_eq!(q.try_dequeue(), Err(DequeueError::Closed));
    assert_eq!(q.try_dequeue(), Err(DequeueError::Closed));
}

#[test]
fn sequence_numbers_increase_with_each_accepted_item() {
    let mut q = WorkQueue::new(2);
    assert_eq!(q.try_enqueue(10), Ok(0));
    assert_eq!(q.try_enqueue(20), Ok(1));
    assert_eq!(q.try_enqueue(30), Err(EnqueueError::Full));
    assert_eq!(q.try_dequeue(), Ok(WorkItem { seq: 0, input: 10 }));
    assert_eq!(q.try_enqueue(30), Ok(2));
    assert_eq!(q.submitted(), 3);
}

#[test]
fn full_queue_refuses_until_a_dequeue() {
    let mut q = WorkQueue::new(3);
    for input in 0..3u64 {
        assert!(q.try_enqueue(input).is_ok());
        assert!(q.len() <= q.capacity());
    }
    assert_eq!(q.try_enqueue(99), Err(EnqueueError::Full));
    assert_eq!(q.len(), 3);
    assert_eq!(q.submitted(), 3);
    assert!(q.try_dequeue().is_ok());
    assert_eq!(q.try_enqueue(99), Ok(3));
    assert_eq!(q.len(), 3);
}

#[test]
fn zero_capacity_queue_is_always_full() {
    let mut q = WorkQueue::new(0);
    assert_eq!(q.try_enqueue(1), Err(EnqueueError::Full));
    assert_eq!(q.try_dequeue(), Err(DequeueError::Empty));
}

#[test]
fn empty_open_queue_reports_empty() {
    let mut q = WorkQueue::new(1);
    assert_eq!(q.try_dequeue(), Err(DequeueError::Empty));
    assert!(!q.is_closed());
}

#[test]
fn closed_queue_refuses_but_drains() {
    let mut q = WorkQueue::new(2);
    assert_eq!(q.try_enqueue(5), Ok(0));
    q.close();
    assert_eq!(q.try_enqueue(6), Err(EnqueueError::Closed));
    assert_eq!(q.try_dequeue(), Ok(WorkItem { seq: 0, input: 5 }));
    assert_eq!(q.try_dequeue(), Err(DequeueError::Closed));
}

#[test]
fn closing_queue_twice_is_closing_once() {
    let mut once = WorkQueue::new(2);
    let mut twice = WorkQueue::new(2);
    assert_eq!(once.try_enqueue(4), Ok(0));
    assert_eq!(twice.try_enqueue(4), Ok(0));
    once.close();
    twice.close();
    twice.close();
    assert_eq!(once.is_closed(), twice.is_closed());
    assert_eq!(once.len(), twice.len());
    assert_eq!(once.try_enqueue(8), twice.try_enqueue(8));
    assert_eq!(once.try_dequeue(), twice.try_dequeue());
    assert_eq!(once.try_dequeue(), twice.try_dequeue());
}

#[test]
fn closing_channel_twice_is_closing_once() {
    let mut once = ResultChannel::new();
    let mut twice = ResultChannel::new();
    assert_eq!(once.send(WorkResult::Done { seq: 0, output: 1 }), Ok(()));
    assert_eq!(twice.send(WorkResult::Done { seq: 0, output: 1 }), Ok(()));
    once.close();
    twice.close();
    twice.close();
    assert_eq!(once.is_closed(), twice.is_closed());
    assert_eq!(once.len(), twice.len());
    assert_eq!(once.send(WorkResult::Done { seq: 1, output: 2 }), Err(Closed));
    assert_eq!(twice.send(WorkResult::Done { seq: 1, output: 2 }), Err(Closed));
    assert_eq!(once.try_receive(), twice.try_receive());
    assert_eq!(once.try_receive(), Err(RecvError::Closed));
    assert_eq!(twice.try_receive(), Err(RecvError::Closed));
}

#[test]
fn channel_hands_out_results_then_empty() {
    let mut c = ResultChannel::new();
    assert_eq!(c.try_receive(), Err(RecvError::Empty));
    assert_eq!(c.send(WorkResult::Done { seq: 3, output: 9 }), Ok(()));
    assert_eq!(
        c.send(WorkResult::Failed { seq: 4, cause: "bad".to_string() }),
        Ok(())
    );
    assert_eq!(c.len(), 2);
    assert_eq!(c.try_receive(), Ok(WorkResult::Done { seq: 3, output: 9 }));
    let failed = c.try_receive().unwrap();
    assert_eq!(failed.seq(), 4);
    assert!(failed.is_failed());
    assert_eq!(c.try_receive(), Err(RecvError::Empty));
}

#[test]
fn outcome_becomes_result_under_item_number() {
    let item = WorkItem { seq: 6, input: 5 };
    assert_eq!(make_result(item, Ok(25)), WorkResult::Done { seq: 6, output: 25 });
    assert_eq!(
        make_result(item, Err("overflow".to_string())),
        WorkResult::Failed { seq: 6, cause: "overflow".to_string() }
    );
}

#[test]
fn interleaved_dequeues_keep_enqueue_order() {
    let inputs = [11u64, 22, 33, 44, 55];
    let mut q = WorkQueue::new(1);
    let mut out = Vec::new();
    for &input in &inputs {
        while q.try_enqueue(input) == Err(EnqueueError::Full) {
            out.push(q.try_dequeue().unwrap());
        }
    }
    q.close();
    loop {
        match q.try_dequeue() {
            Ok(item) => out.push(item),
            Err(e) => {
                assert_eq!(e, DequeueError::Closed);
                break;
            }
        }
    }
    let expected: Vec<WorkItem> = inputs
        .iter()
        .enumerate()
        .map(|(k, &input)| WorkItem { seq: k as u64, input })
        .collect();
    assert_eq!(out, expected);
}
