//! A worker: the states its loop goes through, what it does with a message,
//! and the record that the pool keeps of it.

use crate::message::Message;
use vstd::prelude::*;

verus! {

/// Where a worker stands in its loop.
#[derive(Clone, Copy, Debug, PartialEq, Eq, Structural)]
pub enum WorkerState {
    /// At the queue, with no job in hand.
    Waiting,
    /// Running one job, away from the queue.
    Executing,
    /// Out of the loop for good.
    Terminated,
}

/// What a worker does after it has let go of the queue.
pub enum Action<J> {
    /// Run this job, then come back to the queue.
    Run(J),
    /// Return from the loop.
    Exit,
}

/// How a job ended.
#[derive(Clone, Copy, Debug, PartialEq, Eq, Structural)]
pub enum JobOutcome {
    /// The job returned.
    Completed,
    /// The job failed; the worker caught the failure.
    Faulted,
}

/// The state a waiting worker enters on `message`, and what it then does.
pub open spec fn dispatch<J>(message: Message<J>) -> (WorkerState, Action<J>) {
    match message {
        Message::NewJob(job) => (WorkerState::Executing, Action::Run(job)),
        Message::Terminate => (WorkerState::Terminated, Action::Exit),
    }
}

impl WorkerState {
    /// The state in which every worker starts.
    pub fn new() -> (state: Self)
        ensures
            state == WorkerState::Waiting,
    {
        WorkerState::Waiting
    }

    /// Whether the worker may take a message from the queue.
    pub fn is_waiting(&self) -> (waiting: bool)
        ensures
            waiting == (*self == WorkerState::Waiting),
    {
        match self {
            WorkerState::Waiting => true,
            _ => false,
        }
    }

    /// Whether the worker runs a job.
    pub fn is_executing(&self) -> (executing: bool)
        ensures
            executing == (*self == WorkerState::Executing),
    {
        match self {
            WorkerState::Executing => true,
            _ => false,
        }
    }

    /// Whether the worker has left its loop.
    pub fn is_terminated(&self) -> (terminated: bool)
        ensures
            terminated == (*self == WorkerState::Terminated),
    {
        match self {
            WorkerState::Terminated => true,
            _ => false,
        }
    }

    /// A waiting worker has taken `message` and let go of the queue: a job
    /// sends it off to run that job, the order to stop ends its loop.
    pub fn on_message<J>(self, message: Message<J>) -> (next: (WorkerState, Action<J>))
        requires
            self == WorkerState::Waiting,
        ensures
            next == dispatch(message),
    {
        match message {
            Message::NewJob(job) => (WorkerState::Executing, Action::Run(job)),
            Message::Terminate => (WorkerState::Terminated, Action::Exit),
        }
    }

    /// The job in hand has ended. However it ended, the worker goes back to
    /// the queue: a failed job stops neither this worker nor any other.
    pub fn on_job_done(self, outcome: JobOutcome) -> (next: WorkerState)
        requires
            self == WorkerState::Executing,
        ensures
            next == WorkerState::Waiting,
    {
        WorkerState::Waiting
    }
}

/// The pool's record of one worker: its number, and the handle of its thread
/// for as long as nobody has taken it to join the thread.
pub struct Worker<H> {
    id: usize,
    thread: Option<H>,
}

impl<H> Worker<H> {
    /// The worker's number.
    pub closed spec fn spec_id(&self) -> usize {
        self.id
    }

    /// The handle, while it is there.
    pub closed spec fn handle(&self) -> Option<H> {
        self.thread
    }

    /// The record of worker `id`, whose thread is reached through `thread`.
    pub fn new(id: usize, thread: H) -> (worker: Self)
        ensures
            worker.spec_id() == id,
            worker.handle() == Some(thread),
    {
        Worker { id, thread: Some(thread) }
    }

    /// The worker's number.
    #[verifier::when_used_as_spec(spec_id)]
    pub fn id(&self) -> (id: usize)
        ensures
            id == self.spec_id(),
    {
        self.id
    }

    /// Whether the handle is still there, so that the thread can be joined.
    pub fn is_joinable(&self) -> (joinable: bool)
        ensures
            joinable == self.handle().is_some(),
    {
        self.thread.is_some()
    }

    /// Hands out the handle and leaves none behind: the first call gives it,
    /// every later call gives nothing and changes nothing.
    pub fn take_thread(&mut self) -> (thread: Option<H>)
        ensures
            thread == old(self).handle(),
            final(self).handle().is_none(),
            final(self).spec_id() == old(self).spec_id(),
    {
        self.thread.take()
    }
}

} // verus!
