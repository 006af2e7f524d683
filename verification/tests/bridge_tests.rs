use source_poller::bridge::{Pending, Resolution, Worker};

#[test]
fn a_new_worker_waits_for_requests() {
    let worker = Worker::new();
    assert!(worker.is_open());
    assert!(!worker.is_finished());
    assert_eq!(worker.outstanding(), &Vec::<Pending>::new());
}

#[test]
fn requests_get_tickets_in_order_without_waiting() {
    let mut worker = Worker::new();
    assert_eq!(worker.accept(138), Some(0));
    assert_eq!(worker.accept(125), Some(1));
    assert_eq!(worker.accept(138), Some(2));
    assert_eq!(
        worker.outstanding(),
        &vec![
            Pending { ticket: 0, source: 138 },
            Pending { ticket: 1, source: 125 },
            Pending { ticket: 2, source: 138 },
        ]
    );
}

#[test]
fn a_delivered_outcome_settles_its_request() {
    let mut worker = Worker::new();
    assert_eq!(worker.accept(138), Some(0));
    assert_eq!(worker.accept(125), Some(1));
    assert_eq!(worker.resolve(1, true), Resolution::Delivered { source: 125 });
    assert_eq!(worker.outstanding(), &vec![Pending { ticket: 0, source: 138 }]);
    assert_eq!(worker.resolve(0, true), Resolution::Delivered { source: 138 });
    assert_eq!(worker.outstanding(), &Vec::<Pending>::new());
}

#[test]
fn a_dropped_listener_is_reported_and_the_worker_serves_on() {
    let mut worker = Worker::new();
    assert_eq!(worker.accept(889), Some(0));
    assert_eq!(worker.accept(594), Some(1));
    assert_eq!(worker.resolve(0, false), Resolution::Dropped { source: 889 });
    assert!(worker.is_open());
    assert_eq!(worker.outstanding(), &vec![Pending { ticket: 1, source: 594 }]);
    assert_eq!(worker.accept(156), Some(2));
    assert_eq!(worker.resolve(1, true), Resolution::Delivered { source: 594 });
    assert_eq!(worker.resolve(2, true), Resolution::Delivered { source: 156 });
    assert_eq!(worker.outstanding(), &Vec::<Pending>::new());
}

#[test]
fn a_request_is_settled_once() {
    let mut worker = Worker::new();
    assert_eq!(worker.accept(138), Some(0));
    assert_eq!(worker.resolve(0, true), Resolution::Delivered { source: 138 });
    assert_eq!(worker.resolve(0, true), Resolution::Unknown);
    assert_eq!(worker.resolve(0, false), Resolution::Unknown);
    assert_eq!(worker.resolve(17, true), Resolution::Unknown);
    assert_eq!(worker.outstanding(), &Vec::<Pending>::new());
}

#[test]
fn only_the_end_of_the_stream_closes_the_worker() {
    let mut worker = Worker::new();
    assert_eq!(worker.accept(138), Some(0));
    assert_eq!(worker.accept(125), Some(1));
    assert_eq!(worker.resolve(0, false), Resolution::Dropped { source: 138 });
    assert!(worker.is_open());
    worker.close();
    assert!(!worker.is_open());
    assert!(!worker.is_finished());
    assert_eq!(worker.accept(156), None);
    assert_eq!(worker.outstanding(), &vec![Pending { ticket: 1, source: 125 }]);
    assert_eq!(worker.resolve(1, true), Resolution::Delivered { source: 125 });
    assert!(worker.is_finished());
}

#[test]
fn a_worker_closed_at_once_is_finished() {
    let mut worker = Worker::new();
    worker.close();
    assert!(worker.is_finished());
    assert_eq!(worker.accept(1), None);
}
