//! Whole runs of a pool, with the test in the place of the threads: it picks
//! which worker moves next.

use webserver_lgr::message::Message;
use webserver_lgr::pool::{PoolError, ThreadPool};
use webserver_lgr::queue::SharedQueue;
use webserver_lgr::worker::{Action, JobOutcome, WorkerState};

/// A pool with its queue and the loop state of each worker.
struct Rig {
    pool: ThreadPool<char>,
    queue: SharedQueue<u32>,
    states: Vec<WorkerState>,
    /// The jobs that ran, each with the worker that ran it.
    ran: Vec<(usize, u32)>,
    /// The jobs that failed.
    failed: Vec<u32>,
    /// The handles that were joined, with the worker each belongs to.
    joined: Vec<(usize, char)>,
}

fn handle_of(worker: usize) -> char {
    (b'a' + worker as u8) as char
}

fn rig(size: usize) -> Rig {
    let handles: Vec<char> = (0..size).map(handle_of).collect();
    Rig {
        pool: ThreadPool::new(handles),
        queue: SharedQueue::new(),
        states: (0..size).map(|_| WorkerState::new()).collect(),
        ran: Vec::new(),
        failed: Vec::new(),
        joined: Vec::new(),
    }
}

impl Rig {
    /// One turn of worker `w`'s loop: take a message, let go of the queue,
    /// act. A job whose number is odd fails. Returns whether the worker moved.
    fn turn(&mut self, w: usize) -> bool {
        if !self.states[w].is_waiting() {
            return false;
        }
        let message = match self.queue.recv() {
            Some(message) => message,
            None => return false,
        };
        let (state, action) = self.states[w].on_message(message);
        self.states[w] = state;
        match action {
            Action::Run(job) => {
                assert!(self.states[w].is_executing());
                let outcome = if job % 2 == 1 { JobOutcome::Faulted } else { JobOutcome::Completed };
                self.ran.push((w, job));
                if outcome == JobOutcome::Faulted {
                    self.failed.push(job);
                }
                self.states[w] = self.states[w].on_job_done(outcome);
            }
            Action::Exit => assert!(self.states[w].is_terminated()),
        }
        true
    }

    /// Lets the workers move in the order `schedule` until the queue is empty
    /// or nobody can move; a worker that cannot move is passed over.
    fn drain(&mut self, schedule: &[usize]) {
        let mut at = 0;
        let mut idle = 0;
        while !self.queue.is_empty() && idle < schedule.len() {
            if self.turn(schedule[at % schedule.len()]) {
                idle = 0;
            } else {
                idle += 1;
            }
            at += 1;
        }
    }

    /// Orders the shutdown, lets the workers finish, joins what was handed out.
    fn dispose(&mut self, schedule: &[usize]) {
        let joins = self.pool.shutdown(&mut self.queue);
        self.drain(schedule);
        for (worker, handle) in joins {
            assert!(self.states[worker].is_terminated());
            self.joined.push((worker, handle));
        }
    }

    fn jobs_run(&self) -> Vec<u32> {
        self.ran.iter().map(|&(_, job)| job).collect()
    }
}

#[test]
fn five_jobs_on_two_workers_each_run_once() {
    let mut r = rig(2);
    for job in [0, 2, 4, 6, 8] {
        assert_eq!(r.pool.execute(&mut r.queue, job), Ok(()));
    }
    assert_eq!(r.queue.len(), 5);
    r.dispose(&[0, 1]);
    assert_eq!(r.jobs_run(), vec![0, 2, 4, 6, 8]);
    assert!(r.failed.is_empty());
    assert_eq!(r.joined, vec![(0, 'a'), (1, 'b')]);
    assert!(r.states.iter().all(|s| s.is_terminated()));
    assert!(r.queue.is_empty());
}

#[test]
fn five_jobs_run_once_under_other_schedules() {
    for schedule in [vec![1, 0], vec![0, 0, 0, 1], vec![1, 1, 0], vec![0], vec![1]] {
        let mut r = rig(2);
        for job in [0, 2, 4, 6, 8] {
            assert_eq!(r.pool.execute(&mut r.queue, job), Ok(()));
        }
        let joins = r.pool.shutdown(&mut r.queue);
        r.drain(&schedule);
        // A schedule of one worker leaves the other's order to stop behind.
        r.drain(&[0, 1]);
        assert_eq!(r.jobs_run(), vec![0, 2, 4, 6, 8]);
        assert_eq!(joins, vec![(0, 'a'), (1, 'b')]);
        assert!(r.states.iter().all(|s| s.is_terminated()));
        assert!(r.queue.is_empty());
    }
}

#[test]
fn jobs_taken_while_others_are_submitted() {
    let mut r = rig(3);
    assert_eq!(r.pool.execute(&mut r.queue, 10), Ok(()));
    assert!(r.turn(2));
    assert!(!r.turn(1));
    assert_eq!(r.pool.execute(&mut r.queue, 20), Ok(()));
    assert_eq!(r.pool.execute(&mut r.queue, 30), Ok(()));
    assert!(r.turn(0));
    r.dispose(&[1, 2, 0]);
    assert_eq!(r.ran, vec![(2, 10), (0, 20), (1, 30)]);
    assert_eq!(r.joined, vec![(0, 'a'), (1, 'b'), (2, 'c')]);
}

#[test]
fn failed_job_does_not_stop_the_next() {
    let mut r = rig(1);
    assert_eq!(r.pool.execute(&mut r.queue, 7), Ok(()));
    assert_eq!(r.pool.execute(&mut r.queue, 8), Ok(()));
    r.dispose(&[0]);
    assert_eq!(r.failed, vec![7]);
    assert_eq!(r.ran, vec![(0, 7), (0, 8)]);
    assert_eq!(r.joined, vec![(0, 'a')]);
    assert!(r.states[0].is_terminated());
}

#[test]
fn shutdown_without_jobs_stops_all_three() {
    let mut r = rig(3);
    r.dispose(&[0, 1, 2]);
    assert!(r.ran.is_empty());
    assert_eq!(r.joined, vec![(0, 'a'), (1, 'b'), (2, 'c')]);
    assert!(r.states.iter().all(|s| s.is_terminated()));
    assert!(r.queue.is_empty());
}

#[test]
fn execute_after_shutdown_is_refused() {
    let mut r = rig(2);
    r.dispose(&[0, 1]);
    assert_eq!(r.pool.execute(&mut r.queue, 4), Err(PoolError::QueueClosed));
    assert!(r.queue.is_empty());
    assert!(r.ran.is_empty());
}

#[test]
fn execute_is_refused_as_soon_as_shutdown_is_ordered() {
    let mut r = rig(2);
    assert_eq!(r.pool.execute(&mut r.queue, 2), Ok(()));
    assert!(!r.pool.is_closed());
    let joins = r.pool.shutdown(&mut r.queue);
    assert!(r.pool.is_closed());
    assert_eq!(joins.len(), 2);
    assert_eq!(r.queue.len(), 3);
    assert_eq!(r.pool.execute(&mut r.queue, 4), Err(PoolError::QueueClosed));
    assert_eq!(r.queue.len(), 3);
    r.drain(&[0, 1]);
    assert_eq!(r.jobs_run(), vec![2]);
}

#[test]
fn second_shutdown_changes_nothing() {
    let mut r = rig(2);
    let first = r.pool.shutdown(&mut r.queue);
    assert_eq!(first, vec![(0, 'a'), (1, 'b')]);
    assert_eq!(r.queue.len(), 2);
    let second = r.pool.shutdown(&mut r.queue);
    assert!(second.is_empty());
    assert_eq!(r.queue.len(), 2);
    assert!(r.pool.is_closed());
    assert!(!r.pool.is_joinable(0));
    assert!(!r.pool.is_joinable(1));
}

#[test]
fn shutdown_sends_one_order_to_stop_for_each_worker() {
    let mut pool: ThreadPool<char> = ThreadPool::new(vec!['x', 'y', 'z', 'w']);
    let mut queue: SharedQueue<u32> = SharedQueue::new();
    assert_eq!(pool.execute(&mut queue, 1), Ok(()));
    pool.shutdown(&mut queue);
    assert_eq!(queue.len(), 5);
    assert!(matches!(queue.recv(), Some(Message::NewJob(1))));
    for _ in 0..4 {
        assert!(matches!(queue.recv(), Some(Message::Terminate)));
    }
    assert!(queue.recv().is_none());
}

#[test]
fn terminated_worker_takes_nothing_more() {
    let mut r = rig(2);
    r.pool.shutdown(&mut r.queue);
    assert!(r.turn(0));
    assert!(r.states[0].is_terminated());
    assert!(!r.turn(0));
    assert_eq!(r.queue.len(), 1);
    assert!(r.turn(1));
    assert!(r.queue.is_empty());
}
