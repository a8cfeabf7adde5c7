use mem_server_demo::model::{Fetch, JoinStep};
use mem_server_demo::pool::{SubmitError, ThreadPool};
use mem_server_demo::worker::WorkerState;
use std::cell::{Cell, RefCell};
use std::rc::Rc;

type Job = Box<dyn FnOnce()>;

fn counting_job(counter: &Rc<Cell<usize>>) -> Job {
    let counter = Rc::clone(counter);
    Box::new(move || counter.set(counter.get() + 1))
}

fn logging_job(log: &Rc<RefCell<Vec<usize>>>, tag: usize) -> Job {
    let log = Rc::clone(log);
    Box::new(move || log.borrow_mut().push(tag))
}

/// Lets every live worker take one step, in the order of their indices.
/// Returns how many steps were taken that changed anything.
fn round(pool: &mut ThreadPool<Job>, in_hand: &mut Vec<Option<Job>>) -> usize {
    let mut steps = 0;
    for id in 0..pool.size() {
        match pool.worker_state(id) {
            Some(WorkerState::Waiting) => match pool.next_job(id) {
                Fetch::Job(job) => {
                    in_hand[id] = Some(job);
                    steps += 1;
                }
                Fetch::Idle => {}
                Fetch::Shutdown => steps += 1,
            },
            Some(WorkerState::Running) => {
                let job = in_hand[id].take().unwrap();
                job();
                pool.complete(id);
                steps += 1;
            }
            _ => {}
        }
    }
    steps
}

fn idle_hands(size: usize) -> Vec<Option<Job>> {
    let mut hands = Vec::new();
    for _ in 0..size {
        hands.push(None);
    }
    hands
}

/// Closes the queue, lets the workers drain it, and joins them in order.
/// Returns the number of worker steps that the drain took.
fn tear_down(pool: &mut ThreadPool<Job>, in_hand: &mut Vec<Option<Job>>) -> usize {
    pool.shutdown();
    let mut steps = 0;
    while pool.live_workers() > 0 {
        let taken = round(pool, in_hand);
        assert!(taken > 0);
        steps += taken;
    }
    for id in 0..pool.size() {
        assert_eq!(pool.join_next(), JoinStep::Joined(id));
    }
    assert_eq!(pool.join_next(), JoinStep::Complete);
    assert!(pool.is_torn_down());
    steps
}

fn assert_send<T: Send>() {}

#[test]
fn pool_of_sendable_jobs_is_sendable() {
    assert_send::<ThreadPool<Box<dyn FnOnce() + Send + 'static>>>();
}

#[test]
fn new_pool_has_size_live_waiting_workers() {
    for size in 1..=9usize {
        let pool: ThreadPool<Job> = ThreadPool::new(size);
        assert_eq!(pool.size(), size);
        assert_eq!(pool.live_workers(), size);
        for id in 0..size {
            assert_eq!(pool.worker_state(id), Some(WorkerState::Waiting));
        }
        assert_eq!(pool.worker_state(size), None);
        assert!(pool.is_open());
        assert_eq!(pool.pending(), 0);
        assert_eq!(pool.joined(), 0);
        assert!(!pool.is_torn_down());
    }
}

#[test]
fn execute_queues_the_job_and_returns() {
    let mut pool: ThreadPool<u32> = ThreadPool::new(2);
    assert!(pool.execute(5).is_ok());
    assert_eq!(pool.pending(), 1);
    assert!(pool.execute(6).is_ok());
    assert_eq!(pool.pending(), 2);
    assert_eq!(pool.worker_state(0), Some(WorkerState::Waiting));
    assert_eq!(pool.worker_state(1), Some(WorkerState::Waiting));
}

#[test]
fn jobs_leave_the_queue_oldest_first() {
    let mut pool: ThreadPool<u32> = ThreadPool::new(1);
    for job in [30u32, 10, 20, 10] {
        assert!(pool.execute(job).is_ok());
    }
    let mut seen = Vec::new();
    loop {
        match pool.next_job(0) {
            Fetch::Job(job) => {
                seen.push(job);
                pool.complete(0);
            }
            Fetch::Idle => break,
            Fetch::Shutdown => panic!("the queue is open"),
        }
    }
    assert_eq!(seen, vec![30, 10, 20, 10]);
    assert_eq!(pool.pending(), 0);
}

#[test]
fn waiting_worker_on_empty_open_queue_stays_waiting() {
    let mut pool: ThreadPool<u32> = ThreadPool::new(2);
    assert!(matches!(pool.next_job(1), Fetch::Idle));
    assert_eq!(pool.worker_state(1), Some(WorkerState::Waiting));
    assert_eq!(pool.live_workers(), 2);
    assert!(pool.execute(4).is_ok());
    assert!(matches!(pool.next_job(1), Fetch::Job(4)));
    assert_eq!(pool.worker_state(1), Some(WorkerState::Running));
    assert_eq!(pool.worker_state(0), Some(WorkerState::Waiting));
    assert_eq!(pool.pending(), 0);
}

#[test]
fn every_job_is_invoked_exactly_once() {
    for jobs in [0usize, 1, 2, 7, 50] {
        for size in [1usize, 2, 3, 8] {
            let mut pool: ThreadPool<Job> = ThreadPool::new(size);
            let mut hands = idle_hands(size);
            let counters: Vec<Rc<Cell<usize>>> =
                (0..jobs).map(|_| Rc::new(Cell::new(0))).collect();
            for (at, counter) in counters.iter().enumerate() {
                assert!(pool.execute(counting_job(counter)).is_ok());
                if at % 3 == 0 {
                    round(&mut pool, &mut hands);
                }
            }
            tear_down(&mut pool, &mut hands);
            for counter in &counters {
                assert_eq!(counter.get(), 1);
            }
            assert_eq!(pool.pending(), 0);
            assert_eq!(pool.live_workers(), 0);
        }
    }
}

#[test]
fn interleaved_submitters_lose_no_job() {
    let mut pool: ThreadPool<Job> = ThreadPool::new(4);
    let mut hands = idle_hands(4);
    let counter = Rc::new(Cell::new(0usize));
    for _turn in 0..100 {
        for _submitter in 0..10 {
            assert!(pool.execute(counting_job(&counter)).is_ok());
        }
        round(&mut pool, &mut hands);
    }
    tear_down(&mut pool, &mut hands);
    assert_eq!(counter.get(), 1000);
}

#[test]
fn no_job_is_accepted_after_shutdown() {
    let mut pool: ThreadPool<u32> = ThreadPool::new(2);
    assert!(pool.execute(1).is_ok());
    pool.shutdown();
    assert!(!pool.is_open());
    assert!(matches!(pool.execute(2), Err(SubmitError::Closed(2))));
    assert_eq!(pool.pending(), 1);
    assert!(matches!(pool.next_job(0), Fetch::Job(1)));
    assert!(matches!(pool.execute(3), Err(SubmitError::Closed(3))));
    pool.complete(0);
    assert!(matches!(pool.next_job(0), Fetch::Shutdown));
    assert!(matches!(pool.next_job(1), Fetch::Shutdown));
    assert!(matches!(pool.execute(4), Err(SubmitError::Closed(4))));
    assert_eq!(pool.pending(), 0);
}

#[test]
fn queued_jobs_are_still_run_after_shutdown() {
    let mut pool: ThreadPool<Job> = ThreadPool::new(2);
    let mut hands = idle_hands(2);
    let log = Rc::new(RefCell::new(Vec::new()));
    for tag in 0..5 {
        assert!(pool.execute(logging_job(&log, tag)).is_ok());
    }
    tear_down(&mut pool, &mut hands);
    let mut ran = log.borrow().clone();
    ran.sort();
    assert_eq!(ran, vec![0, 1, 2, 3, 4]);
}

#[test]
fn drain_takes_no_more_steps_than_the_work_left() {
    let mut pool: ThreadPool<Job> = ThreadPool::new(3);
    let mut hands = idle_hands(3);
    let counter = Rc::new(Cell::new(0usize));
    for _ in 0..5 {
        assert!(pool.execute(counting_job(&counter)).is_ok());
    }
    assert!(matches!(pool.worker_state(0), Some(WorkerState::Waiting)));
    match pool.next_job(0) {
        Fetch::Job(job) => hands[0] = Some(job),
        _ => panic!("a job is queued"),
    }
    // four jobs queued, one worker running, two waiting: 2 * 4 + 2 + 2 * 1
    let steps = tear_down(&mut pool, &mut hands);
    assert_eq!(steps, 12);
    assert_eq!(counter.get(), 5);
}

#[test]
fn two_workers_run_two_jobs_at_once() {
    let mut pool: ThreadPool<&str> = ThreadPool::new(2);
    assert!(pool.execute("a").is_ok());
    assert!(pool.execute("b").is_ok());
    assert!(matches!(pool.next_job(0), Fetch::Job("a")));
    assert!(matches!(pool.next_job(1), Fetch::Job("b")));
    assert_eq!(pool.worker_state(0), Some(WorkerState::Running));
    assert_eq!(pool.worker_state(1), Some(WorkerState::Running));
    assert_eq!(pool.pending(), 0);
    pool.complete(1);
    pool.complete(0);
    assert_eq!(pool.worker_state(0), Some(WorkerState::Waiting));
    assert_eq!(pool.worker_state(1), Some(WorkerState::Waiting));
}

#[test]
fn single_worker_runs_one_job_after_the_other() {
    let mut pool: ThreadPool<&str> = ThreadPool::new(1);
    assert!(pool.execute("a").is_ok());
    assert!(pool.execute("b").is_ok());
    assert!(matches!(pool.next_job(0), Fetch::Job("a")));
    assert_eq!(pool.worker_state(0), Some(WorkerState::Running));
    assert_eq!(pool.pending(), 1);
    pool.complete(0);
    assert_eq!(pool.worker_state(0), Some(WorkerState::Waiting));
    assert!(matches!(pool.next_job(0), Fetch::Job("b")));
    assert_eq!(pool.pending(), 0);
    pool.complete(0);
    assert!(matches!(pool.next_job(0), Fetch::Idle));
}

#[test]
fn pool_without_jobs_tears_down() {
    let mut pool: ThreadPool<u32> = ThreadPool::new(3);
    pool.shutdown();
    pool.shutdown();
    assert!(!pool.is_open());
    for id in 0..3 {
        assert!(matches!(pool.next_job(id), Fetch::Shutdown));
        assert_eq!(pool.worker_state(id), Some(WorkerState::Terminated));
        assert_eq!(pool.live_workers(), 2 - id);
    }
    for id in 0..3 {
        assert_eq!(pool.joined(), id);
        assert_eq!(pool.join_next(), JoinStep::Joined(id));
    }
    assert_eq!(pool.joined(), 3);
    assert!(pool.is_torn_down());
    assert_eq!(pool.join_next(), JoinStep::Complete);
    assert_eq!(pool.join_next(), JoinStep::Complete);
    assert_eq!(pool.joined(), 3);
}

#[test]
fn nothing_is_joined_while_the_queue_is_open() {
    let mut pool: ThreadPool<u32> = ThreadPool::new(2);
    assert_eq!(pool.join_next(), JoinStep::StillOpen);
    assert_eq!(pool.joined(), 0);
    assert!(pool.is_open());
}

#[test]
fn join_waits_for_a_worker_that_is_still_in_its_loop() {
    let mut pool: ThreadPool<u32> = ThreadPool::new(2);
    assert!(pool.execute(1).is_ok());
    assert!(matches!(pool.next_job(0), Fetch::Job(1)));
    pool.shutdown();
    assert!(matches!(pool.next_job(1), Fetch::Shutdown));
    // worker 1 has left, but worker 0 comes first and is still running
    assert_eq!(pool.join_next(), JoinStep::Busy(0));
    assert_eq!(pool.joined(), 0);
    pool.complete(0);
    assert_eq!(pool.join_next(), JoinStep::Busy(0));
    assert!(matches!(pool.next_job(0), Fetch::Shutdown));
    assert_eq!(pool.join_next(), JoinStep::Joined(0));
    assert_eq!(pool.join_next(), JoinStep::Joined(1));
    assert_eq!(pool.join_next(), JoinStep::Complete);
}

#[test]
fn failed_job_costs_the_pool_its_worker() {
    let mut pool: ThreadPool<u32> = ThreadPool::new(2);
    assert!(pool.execute(1).is_ok());
    assert!(pool.execute(2).is_ok());
    assert!(matches!(pool.next_job(0), Fetch::Job(1)));
    pool.fail(0);
    assert_eq!(pool.worker_state(0), Some(WorkerState::Failed));
    assert_eq!(pool.live_workers(), 1);
    assert_eq!(pool.size(), 2);
    // the other worker goes on
    assert!(matches!(pool.next_job(1), Fetch::Job(2)));
    pool.complete(1);
    assert!(pool.execute(3).is_ok());
    pool.shutdown();
    assert!(matches!(pool.next_job(1), Fetch::Job(3)));
    pool.complete(1);
    assert!(matches!(pool.next_job(1), Fetch::Shutdown));
    // the lost worker cannot be joined, and teardown does not complete
    assert_eq!(pool.join_next(), JoinStep::Lost(0));
    assert_eq!(pool.join_next(), JoinStep::Lost(0));
    assert_eq!(pool.joined(), 0);
    assert!(!pool.is_torn_down());
}

#[test]
fn pool_without_workers_left_accepts_nothing() {
    let mut pool: ThreadPool<u32> = ThreadPool::new(2);
    assert!(pool.execute(1).is_ok());
    assert!(pool.execute(2).is_ok());
    assert!(pool.execute(3).is_ok());
    assert!(matches!(pool.next_job(0), Fetch::Job(1)));
    assert!(matches!(pool.next_job(1), Fetch::Job(2)));
    pool.fail(1);
    assert!(pool.execute(4).is_ok());
    pool.fail(0);
    assert_eq!(pool.live_workers(), 0);
    assert!(pool.is_open());
    assert!(matches!(pool.execute(5), Err(SubmitError::NoWorker(5))));
    assert_eq!(pool.pending(), 2);
}
