use std::sync::atomic::{AtomicUsize, Ordering};
use std::sync::{Arc, Mutex};

use threadpool::channel::Channel;
use threadpool::message::{Job, Message};
use threadpool::pool::ThreadPool;
use threadpool::worker::{handle_message, poll, Worker, WorkerState};

/// A no-op job that counts how often it has run.
struct CountJob {
    hits: Arc<AtomicUsize>,
}

impl Job for CountJob {
    fn run(self) {
        self.hits.fetch_add(1, Ordering::SeqCst);
    }
}

/// A job that appends its tag to a shared log, to observe execution order.
struct LogJob {
    tag: u32,
    log: Arc<Mutex<Vec<u32>>>,
}

impl Job for LogJob {
    fn run(self) {
        self.log.lock().unwrap().push(self.tag);
    }
}

/// Runs one worker's loop to completion: polls until the worker terminates.
fn run_worker<J: Job>(channel: &Channel<J>) -> WorkerState {
    let mut state = WorkerState::Waiting;
    while !matches!(state, WorkerState::Terminated) {
        state = poll(channel, state);
    }
    state
}

#[test]
fn hundred_jobs_on_four_workers_all_run_exactly_once() {
    let channel = Arc::new(Channel::new());
    let pool = ThreadPool::new(Arc::clone(&channel), vec![0usize, 1, 2, 3]);
    let hits = Arc::new(AtomicUsize::new(0));
    for _ in 0..100 {
        let job = CountJob { hits: Arc::clone(&hits) };
        assert!(pool.execute(job).is_ok());
    }
    pool.shutdown();
    for _ in 0..4 {
        assert!(matches!(run_worker(&channel), WorkerState::Terminated));
    }
    assert_eq!(hits.load(Ordering::SeqCst), 100);
    let mut pool = pool;
    assert_eq!(pool.take_threads(), vec![0usize, 1, 2, 3]);
}

#[test]
fn teardown_with_no_jobs_stops_every_worker() {
    for n in 1usize..=8 {
        let channel = Arc::new(Channel::new());
        let handles: Vec<usize> = (0..n).collect();
        let mut pool = ThreadPool::<CountJob, usize>::new(Arc::clone(&channel), handles.clone());
        pool.shutdown();
        for _ in 0..n {
            assert!(matches!(run_worker(&channel), WorkerState::Terminated));
        }
        assert!(channel.try_recv().is_none());
        assert_eq!(pool.take_threads(), handles);
    }
}

#[test]
fn zero_jobs_zero_runs() {
    let channel = Arc::new(Channel::<CountJob>::new());
    let pool = ThreadPool::new(Arc::clone(&channel), vec![7usize]);
    let hits = Arc::new(AtomicUsize::new(0));
    pool.shutdown();
    assert!(matches!(run_worker(&channel), WorkerState::Terminated));
    assert_eq!(hits.load(Ordering::SeqCst), 0);
}

#[test]
fn one_submitter_order_is_kept_and_nothing_lost() {
    let channel = Arc::new(Channel::new());
    let pool = ThreadPool::new(Arc::clone(&channel), vec![0usize, 1]);
    let log = Arc::new(Mutex::new(Vec::new()));
    assert!(pool.execute(LogJob { tag: 1, log: Arc::clone(&log) }).is_ok());
    assert!(pool.execute(LogJob { tag: 2, log: Arc::clone(&log) }).is_ok());
    pool.shutdown();
    assert!(matches!(run_worker(&channel), WorkerState::Terminated));
    assert!(matches!(run_worker(&channel), WorkerState::Terminated));
    assert_eq!(*log.lock().unwrap(), vec![1, 2]);
}

#[test]
fn late_submission_is_signalled_and_the_job_comes_back() {
    let channel = Arc::new(Channel::new());
    let pool = ThreadPool::new(Arc::clone(&channel), vec![0usize]);
    pool.shutdown();
    let log = Arc::new(Mutex::new(Vec::new()));
    let rejected = pool.execute(LogJob { tag: 9, log: Arc::clone(&log) });
    match rejected {
        Err(job) => assert_eq!(job.tag, 9),
        Ok(()) => panic!("a submission after teardown must be signalled"),
    }
    assert!(matches!(run_worker(&channel), WorkerState::Terminated));
    assert!(log.lock().unwrap().is_empty());
}

#[test]
fn terminate_signals_queue_behind_pending_jobs() {
    let channel: Channel<LogJob> = Channel::new();
    let log = Arc::new(Mutex::new(Vec::new()));
    assert!(channel.send_job(LogJob { tag: 1, log: Arc::clone(&log) }).is_ok());
    assert!(channel.send_job(LogJob { tag: 2, log: Arc::clone(&log) }).is_ok());
    channel.shutdown(1);
    assert!(matches!(channel.try_recv(), Some(Message::NewJob(_))));
    assert!(matches!(channel.try_recv(), Some(Message::NewJob(_))));
    assert!(matches!(channel.try_recv(), Some(Message::Terminate)));
    assert!(channel.try_recv().is_none());
}

#[test]
fn dequeue_releases_the_channel_before_the_job_runs() {
    let channel: Channel<LogJob> = Channel::new();
    let log = Arc::new(Mutex::new(Vec::new()));
    assert!(channel.send_job(LogJob { tag: 1, log: Arc::clone(&log) }).is_ok());
    assert!(channel.send_job(LogJob { tag: 2, log: Arc::clone(&log) }).is_ok());
    // Both messages can be dequeued before either job runs: try_recv hands
    // the message out with the lock already released.
    let first = channel.try_recv().expect("first job pending");
    let second = channel.try_recv().expect("second job pending");
    assert!(matches!(handle_message(first), WorkerState::Waiting));
    assert!(matches!(handle_message(second), WorkerState::Waiting));
    assert_eq!(*log.lock().unwrap(), vec![1, 2]);
}

#[test]
fn a_terminated_worker_consumes_nothing_further() {
    let channel: Channel<CountJob> = Channel::new();
    channel.shutdown(1);
    let state = run_worker(&channel);
    assert!(matches!(state, WorkerState::Terminated));
    let hits = Arc::new(AtomicUsize::new(0));
    assert!(channel.send_job(CountJob { hits: Arc::clone(&hits) }).is_err());
    let after = poll(&channel, state);
    assert!(matches!(after, WorkerState::Terminated));
    assert_eq!(hits.load(Ordering::SeqCst), 0);
}

#[test]
fn worker_record_hands_its_thread_out_exactly_once() {
    let mut worker = Worker::new(3usize, 42u64);
    assert_eq!(worker.id, 3);
    assert_eq!(worker.take_thread(), Some(42));
    assert_eq!(worker.take_thread(), None);
    assert_eq!(worker.id, 3);
}

#[test]
fn teardown_surrenders_every_handle_in_worker_order_once() {
    let channel = Arc::new(Channel::<CountJob>::new());
    let mut pool = ThreadPool::new(Arc::clone(&channel), vec![10u32, 11, 12]);
    pool.shutdown();
    for _ in 0..3 {
        assert!(matches!(run_worker(&channel), WorkerState::Terminated));
    }
    assert_eq!(pool.take_threads(), vec![10, 11, 12]);
    // A second teardown pass finds every handle already taken and skips it.
    assert_eq!(pool.take_threads(), Vec::<u32>::new());
}

#[test]
fn teardown_begins_at_most_once() {
    let channel: Channel<CountJob> = Channel::new();
    channel.shutdown(2);
    channel.shutdown(2);
    assert!(matches!(channel.try_recv(), Some(Message::Terminate)));
    assert!(matches!(channel.try_recv(), Some(Message::Terminate)));
    // The second shutdown enqueued nothing: two workers, two signals.
    assert!(channel.try_recv().is_none());
}

#[test]
fn a_worker_with_nothing_pending_keeps_waiting() {
    let channel: Channel<CountJob> = Channel::new();
    let state = poll(&channel, WorkerState::Waiting);
    assert!(matches!(state, WorkerState::Waiting));
}
