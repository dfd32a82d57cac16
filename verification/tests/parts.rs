//! The parts of the pool one by one.

use webserver_lgr::message::Message;
use webserver_lgr::pool::ThreadPool;
use webserver_lgr::queue::SharedQueue;
use webserver_lgr::worker::{Action, JobOutcome, Worker, WorkerState};

#[test]
fn queue_is_first_in_first_out() {
    let mut queue: SharedQueue<&str> = SharedQueue::new();
    assert!(queue.is_empty());
    assert!(queue.recv().is_none());
    queue.send(Message::NewJob("a"));
    queue.send(Message::Terminate);
    queue.send(Message::NewJob("b"));
    assert_eq!(queue.len(), 3);
    assert!(matches!(queue.recv(), Some(Message::NewJob("a"))));
    assert!(matches!(queue.recv(), Some(Message::Terminate)));
    assert!(matches!(queue.recv(), Some(Message::NewJob("b"))));
    assert!(queue.recv().is_none());
    assert!(queue.is_empty());
}

#[test]
fn worker_starts_waiting() {
    let state = WorkerState::new();
    assert_eq!(state, WorkerState::Waiting);
    assert!(state.is_waiting());
    assert!(!state.is_executing());
    assert!(!state.is_terminated());
}

#[test]
fn job_message_sends_worker_to_run_it() {
    let (state, action) = WorkerState::Waiting.on_message(Message::NewJob(41));
    assert_eq!(state, WorkerState::Executing);
    assert!(matches!(action, Action::Run(41)));
}

#[test]
fn terminate_message_ends_the_loop() {
    let (state, action) = WorkerState::Waiting.on_message(Message::<u8>::Terminate);
    assert_eq!(state, WorkerState::Terminated);
    assert!(matches!(action, Action::Exit));
}

#[test]
fn worker_waits_again_after_any_outcome() {
    assert_eq!(WorkerState::Executing.on_job_done(JobOutcome::Completed), WorkerState::Waiting);
    assert_eq!(WorkerState::Executing.on_job_done(JobOutcome::Faulted), WorkerState::Waiting);
}

#[test]
fn handle_is_taken_once() {
    let mut worker = Worker::new(5, "handle");
    assert_eq!(worker.id(), 5);
    assert!(worker.is_joinable());
    assert_eq!(worker.take_thread(), Some("handle"));
    assert!(!worker.is_joinable());
    assert_eq!(worker.take_thread(), None);
    assert_eq!(worker.id(), 5);
}

#[test]
fn new_pool_numbers_its_workers() {
    let pool = ThreadPool::new(vec!["p", "q", "r"]);
    assert_eq!(pool.size(), 3);
    assert!(!pool.is_closed());
    for i in 0..3 {
        assert_eq!(pool.worker_id(i), i);
        assert!(pool.is_joinable(i));
    }
}

#[test]
fn pool_of_one() {
    let mut pool = ThreadPool::new(vec![()]);
    let mut queue: SharedQueue<u8> = SharedQueue::new();
    assert_eq!(pool.size(), 1);
    let joins = pool.shutdown(&mut queue);
    assert_eq!(joins, vec![(0, ())]);
    assert_eq!(pool.size(), 1);
    assert_eq!(queue.len(), 1);
}
