use uptime_monitor::collector::{CollectError, Collector};
use uptime_monitor::partition::Dispatcher;
use uptime_monitor::scheduler::{Command, Scheduler, Signal};

fn pool(workers: usize) -> Dispatcher {
    Dispatcher::new(workers).expect("a pool of at least one worker")
}

#[test]
fn a_round_starts_with_nothing_delivered() {
    let collector = Collector::open(&pool(3), 7);
    assert_eq!(collector.len(), 7);
    assert_eq!(collector.forwarded(), 0);
    assert!(!collector.is_complete());
}

#[test]
fn ten_endpoints_over_ten_workers_deliver_ten_records_before_the_pause() {
    let dispatcher = pool(10);
    let (mut scheduler, first) = Scheduler::start(60_000);
    assert_eq!(first, Command::Dispatch);
    let mut collector = Collector::open(&dispatcher, 10);
    let mut delivered = 0;
    let mut complete = false;
    // the workers report in an order of their own
    for worker in [3usize, 9, 0, 5, 1, 7, 2, 8, 4, 6] {
        for index in dispatcher.assignment(10, worker) {
            assert_eq!(collector.accept(worker, index), Ok(()));
            delivered += 1;
        }
        assert!(!complete);
        complete = collector.close(worker).expect("the worker has delivered everything");
    }
    assert!(complete);
    assert!(collector.is_complete());
    assert_eq!(delivered, 10);
    assert_eq!(collector.forwarded(), 10);
    assert_eq!(scheduler.on_signal(Signal::RoundComplete), Some(Command::Sleep(60_000)));
}

#[test]
fn records_of_different_workers_may_interleave() {
    let mut collector = Collector::open(&pool(2), 5);
    assert_eq!(collector.accept(1, 1), Ok(()));
    assert_eq!(collector.accept(0, 0), Ok(()));
    assert_eq!(collector.accept(1, 3), Ok(()));
    assert_eq!(collector.close(1), Ok(false));
    assert_eq!(collector.accept(0, 2), Ok(()));
    assert_eq!(collector.accept(0, 4), Ok(()));
    assert_eq!(collector.forwarded(), 5);
    assert!(!collector.is_complete());
    assert_eq!(collector.close(0), Ok(true));
    assert!(collector.is_complete());
}

#[test]
fn a_worker_delivers_in_the_order_of_its_assignment() {
    let mut collector = Collector::open(&pool(2), 5);
    assert_eq!(collector.accept(0, 2), Err(CollectError::OutOfTurn));
    assert_eq!(collector.accept(0, 1), Err(CollectError::OutOfTurn));
    assert_eq!(collector.forwarded(), 0);
    assert_eq!(collector.accept(0, 0), Ok(()));
    assert_eq!(collector.accept(0, 0), Err(CollectError::OutOfTurn));
    assert_eq!(collector.accept(0, 2), Ok(()));
    assert_eq!(collector.forwarded(), 2);
}

#[test]
fn a_worker_delivers_no_more_than_its_assignment() {
    let mut collector = Collector::open(&pool(2), 3);
    assert_eq!(collector.accept(1, 1), Ok(()));
    assert_eq!(collector.accept(1, 3), Err(CollectError::OutOfTurn));
    assert_eq!(collector.forwarded(), 1);
}

#[test]
fn a_worker_outside_the_pool_is_unknown() {
    let mut collector = Collector::open(&pool(2), 3);
    assert_eq!(collector.accept(2, 2), Err(CollectError::UnknownWorker));
    assert_eq!(collector.close(2), Err(CollectError::UnknownWorker));
    assert_eq!(collector.forwarded(), 0);
}

#[test]
fn a_worker_finishes_only_after_its_whole_assignment() {
    let mut collector = Collector::open(&pool(2), 3);
    assert_eq!(collector.close(0), Err(CollectError::Unfinished));
    assert_eq!(collector.accept(0, 0), Ok(()));
    assert_eq!(collector.close(0), Err(CollectError::Unfinished));
    assert_eq!(collector.accept(0, 2), Ok(()));
    assert_eq!(collector.close(0), Ok(false));
}

#[test]
fn a_finished_worker_reports_nothing_more() {
    let mut collector = Collector::open(&pool(3), 2);
    assert_eq!(collector.close(2), Ok(false));
    assert_eq!(collector.close(2), Err(CollectError::StreamClosed));
    assert_eq!(collector.accept(2, 2), Err(CollectError::StreamClosed));
    assert!(!collector.is_complete());
}

#[test]
fn a_round_over_no_endpoints_completes_when_the_workers_finish() {
    let mut collector = Collector::open(&pool(2), 0);
    assert_eq!(collector.close(0), Ok(false));
    assert_eq!(collector.close(1), Ok(true));
    assert_eq!(collector.forwarded(), 0);
    assert!(collector.is_complete());
}

#[test]
fn a_complete_round_has_delivered_every_endpoint_once() {
    for workers in 1usize..6 {
        for len in 0usize..14 {
            let dispatcher = pool(workers);
            let mut collector = Collector::open(&dispatcher, len);
            let mut seen = vec![0usize; len];
            for worker in (0..workers).rev() {
                for index in dispatcher.assignment(len, worker) {
                    assert_eq!(collector.accept(worker, index), Ok(()));
                    seen[index] += 1;
                }
                assert_eq!(collector.close(worker), Ok(worker == 0));
            }
            assert!(collector.is_complete());
            assert_eq!(collector.forwarded(), len);
            assert!(seen.iter().all(|&count| count == 1));
        }
    }
}
