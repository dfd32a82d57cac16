//! The pool: the records of its workers, and the side of the queue that
//! submits jobs and orders the shutdown.

use crate::message::Message;
use crate::queue::SharedQueue;
use crate::worker::Worker;
use vstd::prelude::*;

verus! {

/// Why the pool did not take a job.
#[derive(Clone, Copy, Debug, PartialEq, Eq, Structural)]
pub enum PoolError {
    /// The shutdown has begun: the queue takes no more jobs.
    QueueClosed,
}

/// What a pool is, to its contracts.
pub struct PoolView<H> {
    /// For each worker, by number, the handle of its thread while it is there.
    pub handles: Seq<Option<H>>,
    /// Whether the shutdown has begun.
    pub closed: bool,
}

/// `n` orders to stop, one behind the other.
pub open spec fn terminates<J>(n: nat) -> Seq<Message<J>> {
    Seq::new(n, |i: int| Message::Terminate)
}

/// What a pool answers when it is asked to run a job: it refuses if and only
/// if it is closed.
pub open spec fn execute_result(closed: bool) -> Result<(), PoolError> {
    if closed {
        Err(PoolError::QueueClosed)
    } else {
        Ok(())
    }
}

/// The queue after a pool has been asked to run `job`: the job stands at the
/// back, unless the pool is closed, which leaves the queue as it was.
pub open spec fn queue_after_execute<J>(closed: bool, queue: Seq<Message<J>>, job: J) -> Seq<
    Message<J>,
> {
    if closed {
        queue
    } else {
        queue.push(Message::NewJob(job))
    }
}

/// The queue after a pool of `size` workers has been shut down: one order to
/// stop for each worker stands at the back, unless the pool was closed before,
/// which leaves the queue as it was.
pub open spec fn queue_after_shutdown<J>(closed: bool, queue: Seq<Message<J>>, size: nat) -> Seq<
    Message<J>,
> {
    if closed {
        queue
    } else {
        queue + terminates(size)
    }
}

/// The handles that are there, each with the number of its worker, in the
/// order of the workers.
pub open spec fn joinable<H>(handles: Seq<Option<H>>) -> Seq<(usize, H)>
    decreases handles.len(),
{
    if handles.len() == 0 {
        Seq::empty()
    } else {
        let before = joinable(handles.drop_last());
        match handles.last() {
            Some(handle) => before.push(((handles.len() - 1) as usize, handle)),
            None => before,
        }
    }
}

/// While no handle has been taken, all of them are handed out: as many as
/// there are workers, the handle of worker `i` in place `i`.
pub proof fn lemma_joinable_when_all_present<H>(handles: Seq<Option<H>>)
    requires
        forall|i: int| 0 <= i < handles.len() ==> (#[trigger] handles[i]).is_some(),
    ensures
        joinable(handles).len() == handles.len(),
        forall|i: int|
            0 <= i < handles.len() ==> #[trigger] joinable(handles)[i] == (
                i as usize,
                handles[i].unwrap(),
            ),
    decreases handles.len(),
{
    if handles.len() > 0 {
        lemma_joinable_when_all_present(handles.drop_last());
    }
}

/// Once every handle has been taken, nothing is handed out again: a second
/// shutdown finds nothing to join.
pub proof fn lemma_joinable_when_none_left<H>(handles: Seq<Option<H>>)
    requires
        forall|i: int| 0 <= i < handles.len() ==> (#[trigger] handles[i]).is_none(),
    ensures
        joinable(handles) == Seq::<(usize, H)>::empty(),
    decreases handles.len(),
{
    if handles.len() > 0 {
        lemma_joinable_when_none_left(handles.drop_last());
    }
}

/// The handles of `workers`, by number.
spec fn handles_of<H>(workers: Seq<Worker<H>>) -> Seq<Option<H>> {
    Seq::new(workers.len(), |i: int| workers[i].handle())
}

/// Takes every handle that is still there, in the order of the workers, and
/// leaves the records with their numbers and without a handle.
fn take_threads<H>(workers: &mut Vec<Worker<H>>) -> (joins: Vec<(usize, H)>)
    ensures
        final(workers)@.len() == old(workers)@.len(),
        forall|i: int|
            0 <= i < old(workers)@.len() ==> (#[trigger] final(workers)@[i]).spec_id() == old(
                workers,
            )@[i].spec_id(),
        forall|i: int|
            0 <= i < old(workers)@.len() ==> (#[trigger] final(workers)@[i]).handle().is_none(),
        joins@ == joinable(handles_of(old(workers)@)),
{
    let ghost before = handles_of(workers@);
    let size: usize = workers.len();
    let mut joins: Vec<(usize, H)> = Vec::new();
    let mut next: usize = 0;
    while next < size
        invariant
            next <= size,
            size == before.len(),
            workers@.len() == size,
            forall|i: int|
                0 <= i < size ==> (#[trigger] workers@[i]).spec_id() == old(workers)@[i].spec_id(),
            forall|i: int| 0 <= i < next ==> (#[trigger] workers@[i]).handle().is_none(),
            forall|i: int| next <= i < size ==> (#[trigger] workers@[i]).handle() == before[i],
            joins@ == joinable(before.take(next as int)),
        decreases size - next,
    {
        proof {
            assert(before.take(next + 1).drop_last() =~= before.take(next as int));
        }
        if let Some(thread) = workers[next].take_thread() {
            joins.push((next, thread));
        }
        next = next + 1;
    }
    proof {
        assert(before.take(size as int) =~= before);
    }
    joins
}

/// A fixed number of workers, at least one, numbered from zero.
pub struct ThreadPool<H> {
    threads: Vec<Worker<H>>,
    closed: bool,
}

impl<H> View for ThreadPool<H> {
    type V = PoolView<H>;

    closed spec fn view(&self) -> PoolView<H> {
        PoolView {
            handles: handles_of(self.threads@),
            closed: self.closed,
        }
    }
}

impl<H> ThreadPool<H> {
    /// What every pool keeps from its making on: it has at least one worker,
    /// and worker `i` bears the number `i`.
    pub closed spec fn wf(&self) -> bool {
        &&& self.threads@.len() >= 1
        &&& forall|i: int| 0 <= i < self.threads@.len() ==> self.threads@[i].spec_id() == i
    }

    /// No pool is without workers: a pool of none cannot be made, so none is
    /// ever found out at the first job.
    pub proof fn lemma_never_empty(&self)
        requires
            self.wf(),
        ensures
            self@.handles.len() >= 1,
    {
    }

    /// A pool with one worker for each handle, in their order: worker `i` is
    /// the one whose thread is reached through `handles[i]`. The pool is open.
    pub fn new(handles: Vec<H>) -> (pool: Self)
        requires
            handles@.len() >= 1,
        ensures
            pool.wf(),
            pool@.handles == handles@.map_values(|handle: H| Some(handle)),
            !pool@.closed,
    {
        let ghost given = handles@;
        let mut threads: Vec<Worker<H>> = Vec::with_capacity(handles.len());
        for handle in iter: handles.into_iter()
            invariant
                iter.seq() == given,
                threads@.len() == iter.index(),
                forall|i: int|
                    0 <= i < threads@.len() ==> (#[trigger] threads@[i]).spec_id() == i
                        && threads@[i].handle() == Some(given[i]),
        {
            let id: usize = threads.len();
            threads.push(Worker::new(id, handle));
        }
        ThreadPool { threads, closed: false }
    }

    /// The number of workers, which never changes and is never zero.
    pub fn size(&self) -> (size: usize)
        requires
            self.wf(),
        ensures
            size == self@.handles.len(),
            size >= 1,
    {
        self.threads.len()
    }

    /// Whether the shutdown has begun.
    pub fn is_closed(&self) -> (closed: bool)
        ensures
            closed == self@.closed,
    {
        self.closed
    }

    /// Puts `job` at the back of `queue` for whichever worker comes next.
    /// Once the shutdown has begun the job is refused and the queue left as
    /// it was.
    pub fn execute<J>(&self, queue: &mut SharedQueue<J>, job: J) -> (result: Result<(), PoolError>)
        ensures
            result == execute_result(self@.closed),
            final(queue)@ == queue_after_execute(self@.closed, old(queue)@, job),
    {
        if self.closed {
            Err(PoolError::QueueClosed)
        } else {
            queue.send(Message::NewJob(job));
            Ok(())
        }
    }

    /// Begins the shutdown and hands out what is left to join.
    ///
    /// On an open pool this puts one order to stop at the back of `queue` for
    /// each worker and closes the pool. In every case it takes each handle
    /// that is still there and returns it with the number of its worker, in
    /// the order of the workers; the caller joins them. A second call finds
    /// the pool closed and no handle left: it changes nothing and returns
    /// nothing.
    pub fn shutdown<J>(&mut self, queue: &mut SharedQueue<J>) -> (joins: Vec<(usize, H)>)
        requires
            old(self).wf(),
        ensures
            final(self).wf(),
            final(self)@.closed,
            final(self)@.handles == Seq::new(old(self)@.handles.len(), |i: int| None::<H>),
            final(queue)@ == queue_after_shutdown(
                old(self)@.closed,
                old(queue)@,
                old(self)@.handles.len(),
            ),
            joins@ == joinable(old(self)@.handles),
    {
        let size: usize = self.threads.len();
        if !self.closed {
            let mut sent: usize = 0;
            while sent < size
                invariant
                    sent <= size,
                    queue@ == old(queue)@ + terminates::<J>(sent as nat),
                decreases size - sent,
            {
                queue.send(Message::Terminate);
                sent = sent + 1;
            }
            self.closed = true;
        }
        take_threads(&mut self.threads)
    }

    /// The number of worker `index`, which is `index`.
    pub fn worker_id(&self, index: usize) -> (id: usize)
        requires
            self.wf(),
            index < self@.handles.len(),
        ensures
            id == index,
    {
        self.threads[index].id()
    }

    /// Whether the handle of worker `index` is still there.
    pub fn is_joinable(&self, index: usize) -> (joinable: bool)
        requires
            index < self@.handles.len(),
        ensures
            joinable == self@.handles[index as int].is_some(),
    {
        self.threads[index].is_joinable()
    }
}

} // verus!
