//! The pool, its queue and its workers taken together, as a transition
//! system, and what holds of every run of it.
//!
//! A run is a sequence of events: the producer submits a job or orders the
//! shutdown, a waiting worker takes the message at the front of the queue, a
//! busy worker ends its job. Which worker moves next is left open, so what is
//! proved here holds however the threads are scheduled.

use crate::message::Message;
use crate::pool::{
    execute_result, queue_after_execute, queue_after_shutdown, terminates, PoolError,
};
use crate::worker::{dispatch, Action, JobOutcome, WorkerState};
use vstd::prelude::*;

verus! {

/// One moment in the life of a pool.
pub struct Snapshot<J> {
    /// Whether the shutdown has begun.
    pub closed: bool,
    /// The messages that wait, the next to leave in front.
    pub queue: Seq<Message<J>>,
    /// The state of each worker, by number.
    pub workers: Seq<WorkerState>,
    /// The jobs that the pool took, in the order in which it took them.
    pub accepted: Seq<J>,
    /// The jobs that workers were sent off to run, in that order.
    pub started: Seq<J>,
    /// How many jobs have ended, whether they returned or failed.
    pub finished: nat,
}

/// What can happen next.
pub enum Event<J> {
    /// The producer asks the pool to run a job.
    Submit(J),
    /// The producer orders the shutdown.
    Shutdown,
    /// The worker of this number takes the message at the front of the queue.
    Take(nat),
    /// The job of the worker of this number ends.
    Finish(nat, JobOutcome),
}

/// A new pool of `size` workers: open, nothing queued, every worker waiting.
pub open spec fn initial<J>(size: nat) -> Snapshot<J> {
    Snapshot {
        closed: false,
        queue: Seq::empty(),
        workers: Seq::new(size, |i: int| WorkerState::Waiting),
        accepted: Seq::empty(),
        started: Seq::empty(),
        finished: 0,
    }
}

/// Whether `event` can happen at `s`. The producer may always call; a worker
/// takes a message only while it waits and there is one, and ends a job only
/// while it runs one.
pub open spec fn enabled<J>(s: Snapshot<J>, event: Event<J>) -> bool {
    match event {
        Event::Submit(_) => true,
        Event::Shutdown => true,
        Event::Take(w) => w < s.workers.len() && s.workers[w as int] == WorkerState::Waiting
            && s.queue.len() > 0,
        Event::Finish(w, _) => w < s.workers.len() && s.workers[w as int]
            == WorkerState::Executing,
    }
}

/// The moment after `event` has happened at `s`.
pub open spec fn step<J>(s: Snapshot<J>, event: Event<J>) -> Snapshot<J> {
    match event {
        Event::Submit(job) => Snapshot {
            queue: queue_after_execute(s.closed, s.queue, job),
            accepted: if s.closed {
                s.accepted
            } else {
                s.accepted.push(job)
            },
            ..s
        },
        Event::Shutdown => Snapshot {
            closed: true,
            queue: queue_after_shutdown(s.closed, s.queue, s.workers.len()),
            ..s
        },
        Event::Take(w) => {
            let (state, action) = dispatch(s.queue[0]);
            Snapshot {
                queue: s.queue.subrange(1, s.queue.len() as int),
                workers: s.workers.update(w as int, state),
                started: match action {
                    Action::Run(job) => s.started.push(job),
                    Action::Exit => s.started,
                },
                ..s
            }
        },
        Event::Finish(w, _) => Snapshot {
            workers: s.workers.update(w as int, WorkerState::Waiting),
            finished: s.finished + 1,
            ..s
        },
    }
}

/// Whether each of `events` can happen in its turn, starting at `s`.
pub open spec fn valid<J>(s: Snapshot<J>, events: Seq<Event<J>>) -> bool
    decreases events.len(),
{
    events.len() == 0 || (valid(s, events.drop_last()) && enabled(
        run(s, events.drop_last()),
        events.last(),
    ))
}

/// The moment after all of `events` have happened, starting at `s`.
pub open spec fn run<J>(s: Snapshot<J>, events: Seq<Event<J>>) -> Snapshot<J>
    decreases events.len(),
{
    if events.len() == 0 {
        s
    } else {
        step(run(s, events.drop_last()), events.last())
    }
}

/// Whether the shutdown is ordered somewhere in `events`.
pub open spec fn orders_shutdown<J>(events: Seq<Event<J>>) -> bool {
    exists|i: int| 0 <= i < events.len() && events[i] is Shutdown
}

/// The jobs that `events` submit before the shutdown is first ordered.
pub open spec fn submitted_in_time<J>(events: Seq<Event<J>>) -> Seq<J>
    decreases events.len(),
{
    if events.len() == 0 {
        Seq::empty()
    } else {
        let before = submitted_in_time(events.drop_last());
        match events.last() {
            Event::Submit(job) if !orders_shutdown(events.drop_last()) => before.push(job),
            _ => before,
        }
    }
}

/// How many of `workers` are in `state`.
pub open spec fn count_in(workers: Seq<WorkerState>, state: WorkerState) -> nat
    decreases workers.len(),
{
    if workers.len() == 0 {
        0
    } else {
        count_in(workers.drop_last(), state) + if workers.last() == state {
            1nat
        } else {
            0nat
        }
    }
}

/// The jobs that wait in `queue`, in their order.
pub open spec fn jobs_in<J>(queue: Seq<Message<J>>) -> Seq<J>
    decreases queue.len(),
{
    if queue.len() == 0 {
        Seq::empty()
    } else {
        let before = jobs_in(queue.drop_last());
        match queue.last() {
            Message::NewJob(job) => before.push(job),
            Message::Terminate => before,
        }
    }
}

/// How many orders to stop wait in `queue`.
pub open spec fn orders_in<J>(queue: Seq<Message<J>>) -> nat
    decreases queue.len(),
{
    if queue.len() == 0 {
        0
    } else {
        orders_in(queue.drop_last()) + if queue.last() is Terminate {
            1nat
        } else {
            0nat
        }
    }
}

/// What is left to do before every worker is at rest: each waiting message is
/// taken and its job ended, each running job ended.
pub open spec fn work_left<J>(s: Snapshot<J>) -> nat {
    2 * s.queue.len() + count_in(s.workers, WorkerState::Executing)
}

/// Whether `event` is a move of a worker.
pub open spec fn by_worker<J>(event: Event<J>) -> bool {
    event is Take || event is Finish
}

proof fn lemma_count_update(workers: Seq<WorkerState>, w: int, next: WorkerState, state: WorkerState)
    requires
        0 <= w < workers.len(),
    ensures
        count_in(workers.update(w, next), state) + (if workers[w] == state {
            1nat
        } else {
            0nat
        }) == count_in(workers, state) + (if next == state {
            1nat
        } else {
            0nat
        }),
    decreases workers.len(),
{
    let after = workers.update(w, next);
    if w == workers.len() - 1 {
        assert(after.drop_last() =~= workers.drop_last());
    } else {
        assert(after.drop_last() =~= workers.drop_last().update(w, next));
        lemma_count_update(workers.drop_last(), w, next, state);
    }
}

proof fn lemma_count_bound(workers: Seq<WorkerState>, state: WorkerState)
    ensures
        count_in(workers, state) <= workers.len(),
        count_in(workers, state) > 0 ==> exists|w: int|
            0 <= w < workers.len() && workers[w] == state,
        count_in(workers, state) < workers.len() ==> exists|w: int|
            0 <= w < workers.len() && workers[w] != state,
        count_in(workers, state) == workers.len() ==> forall|w: int|
            0 <= w < workers.len() ==> workers[w] == state,
        count_in(workers, state) == 0 ==> forall|w: int|
            0 <= w < workers.len() ==> workers[w] != state,
    decreases workers.len(),
{
    if workers.len() > 0 {
        let rest = workers.drop_last();
        lemma_count_bound(rest, state);
        let top = workers.len() - 1;
        if count_in(workers, state) > 0 && workers.last() != state {
            let w = choose|w: int| 0 <= w < rest.len() && rest[w] == state;
            assert(workers[w] == state);
        }
        if count_in(workers, state) < workers.len() && workers.last() == state {
            let w = choose|w: int| 0 <= w < rest.len() && rest[w] != state;
            assert(workers[w] != state);
        }
        if count_in(workers, state) == workers.len() {
            assert forall|w: int| 0 <= w < workers.len() implies workers[w] == state by {
                if w < top {
                    assert(rest[w] == state);
                }
            }
        }
        if count_in(workers, state) == 0 {
            assert forall|w: int| 0 <= w < workers.len() implies workers[w] != state by {
                if w < top {
                    assert(rest[w] != state);
                }
            }
        }
    }
}

proof fn lemma_count_fresh(size: nat, state: WorkerState)
    ensures
        count_in(Seq::new(size, |i: int| WorkerState::Waiting), state) == if state
            == WorkerState::Waiting {
            size
        } else {
            0
        },
    decreases size,
{
    if size > 0 {
        let all = Seq::new(size, |i: int| WorkerState::Waiting);
        assert(all.drop_last() =~= Seq::new((size - 1) as nat, |i: int| WorkerState::Waiting));
        lemma_count_fresh((size - 1) as nat, state);
    }
}

proof fn lemma_queue_front<J>(queue: Seq<Message<J>>)
    requires
        queue.len() > 0,
    ensures
        jobs_in(queue) == match queue[0] {
            Message::NewJob(job) => seq![job] + jobs_in(queue.subrange(1, queue.len() as int)),
            Message::Terminate => jobs_in(queue.subrange(1, queue.len() as int)),
        },
        orders_in(queue) == orders_in(queue.subrange(1, queue.len() as int)) + if queue[0]
            is Terminate {
            1nat
        } else {
            0nat
        },
    decreases queue.len(),
{
    let rest = queue.subrange(1, queue.len() as int);
    if queue.len() == 1 {
        assert(queue.drop_last() =~= Seq::<Message<J>>::empty());
        assert(rest =~= Seq::<Message<J>>::empty());
    } else {
        let shorter = queue.drop_last();
        lemma_queue_front(shorter);
        assert(shorter.subrange(1, shorter.len() as int) =~= rest.drop_last());
    }
}

proof fn lemma_queue_orders_appended<J>(queue: Seq<Message<J>>, n: nat)
    ensures
        jobs_in(queue + terminates::<J>(n)) == jobs_in(queue),
        orders_in(queue + terminates::<J>(n)) == orders_in(queue) + n,
    decreases n,
{
    if n > 0 {
        let longer = queue + terminates::<J>(n);
        assert(longer.drop_last() =~= queue + terminates::<J>((n - 1) as nat));
        lemma_queue_orders_appended(queue, (n - 1) as nat);
    }
}

/// What holds at every moment of every run that starts with a new pool.
pub open spec fn consistent<J>(s: Snapshot<J>) -> bool {
    &&& s.workers.len() >= 1
    &&& s.accepted == s.started + jobs_in(s.queue)
    &&& s.started.len() == s.finished + count_in(s.workers, WorkerState::Executing)
    &&& orders_in(s.queue) + count_in(s.workers, WorkerState::Terminated) == if s.closed {
        s.workers.len()
    } else {
        0
    }
    &&& s.closed && s.queue.len() > 0 ==> s.queue.last() is Terminate
}

proof fn lemma_step_keeps_consistent<J>(s: Snapshot<J>, event: Event<J>)
    requires
        consistent(s),
        enabled(s, event),
    ensures
        consistent(step(s, event)),
        step(s, event).workers.len() == s.workers.len(),
        s.closed ==> step(s, event).closed,
{
    let next = step(s, event);
    match event {
        Event::Submit(job) => {
            if !s.closed {
                assert(s.queue.push(Message::NewJob(job)).drop_last() =~= s.queue);
            }
        },
        Event::Shutdown => {
            if !s.closed {
                lemma_queue_orders_appended(s.queue, s.workers.len());
            }
        },
        Event::Take(w) => {
            lemma_queue_front(s.queue);
            let (state, action) = dispatch(s.queue[0]);
            lemma_count_update(s.workers, w as int, state, WorkerState::Executing);
            lemma_count_update(s.workers, w as int, state, WorkerState::Terminated);
            match s.queue[0] {
                Message::NewJob(job) => {
                    assert(next.accepted =~= next.started + jobs_in(next.queue));
                },
                Message::Terminate => {},
            }
        },
        Event::Finish(w, _) => {
            lemma_count_update(s.workers, w as int, WorkerState::Waiting, WorkerState::Executing);
            lemma_count_update(s.workers, w as int, WorkerState::Waiting, WorkerState::Terminated);
        },
    }
}

proof fn lemma_run_keeps_consistent<J>(s: Snapshot<J>, events: Seq<Event<J>>)
    requires
        consistent(s),
        valid(s, events),
    ensures
        consistent(run(s, events)),
        run(s, events).workers.len() == s.workers.len(),
        s.closed ==> run(s, events).closed,
    decreases events.len(),
{
    if events.len() > 0 {
        lemma_run_keeps_consistent(s, events.drop_last());
        lemma_step_keeps_consistent(run(s, events.drop_last()), events.last());
    }
}

proof fn lemma_initial_consistent<J>(size: nat)
    requires
        size >= 1,
    ensures
        consistent(initial::<J>(size)),
{
    lemma_count_fresh(size, WorkerState::Executing);
    lemma_count_fresh(size, WorkerState::Terminated);
    assert(initial::<J>(size).accepted =~= initial::<J>(size).started + jobs_in(
        initial::<J>(size).queue,
    ));
}

proof fn lemma_run_follows_events<J>(size: nat, events: Seq<Event<J>>)
    ensures
        run(initial::<J>(size), events).closed == orders_shutdown(events),
        run(initial::<J>(size), events).accepted == submitted_in_time(events),
    decreases events.len(),
{
    if events.len() > 0 {
        let earlier = events.drop_last();
        lemma_run_follows_events(size, earlier);
        if orders_shutdown(earlier) {
            let i = choose|i: int| 0 <= i < earlier.len() && earlier[i] is Shutdown;
            assert(events[i] is Shutdown);
        } else if orders_shutdown(events) && !(events.last() is Shutdown) {
            let i = choose|i: int| 0 <= i < events.len() && events[i] is Shutdown;
            assert(earlier[i] is Shutdown);
        }
    }
}

/// Every job is run exactly once, however the workers are scheduled.
///
/// Take a new pool of at least one worker and any run of it. The jobs that
/// the pool took are the jobs that were submitted before the shutdown was
/// ordered. At every moment each of them has either been handed to a worker,
/// once, or waits in the queue, once, in the order of submission, and each
/// job handed out has ended or is still running on one worker. So once the
/// queue is empty and no worker is busy, exactly the submitted jobs have been
/// run, each once.
pub proof fn lemma_every_job_runs_once<J>(size: nat, events: Seq<Event<J>>)
    requires
        size >= 1,
        valid(initial::<J>(size), events),
    ensures
        ({
            let s = run(initial::<J>(size), events);
            &&& s.workers.len() == size
            &&& s.accepted == submitted_in_time(events)
            &&& s.started + jobs_in(s.queue) == s.accepted
            &&& s.finished + count_in(s.workers, WorkerState::Executing) == s.started.len()
            &&& s.queue.len() == 0 && count_in(s.workers, WorkerState::Executing) == 0 ==> {
                &&& s.started == s.accepted
                &&& s.finished == s.accepted.len()
            }
        }),
{
    lemma_initial_consistent::<J>(size);
    lemma_run_keeps_consistent(initial::<J>(size), events);
    lemma_run_follows_events(size, events);
}

/// Once the shutdown is ordered the workers are never stuck, and when nothing
/// is left to do each of them has left its loop, so that every join returns.
///
/// Take a new pool of at least one worker and any run of it in which the
/// shutdown is ordered. While work is left, some worker can move. When none
/// is left, every worker is terminated.
pub proof fn lemma_shutdown_reaches_every_worker<J>(size: nat, events: Seq<Event<J>>)
    requires
        size >= 1,
        valid(initial::<J>(size), events),
        orders_shutdown(events),
    ensures
        ({
            let s = run(initial::<J>(size), events);
            &&& work_left(s) > 0 ==> exists|event: Event<J>| by_worker(event) && enabled(s, event)
            &&& work_left(s) == 0 ==> forall|w: int|
                0 <= w < size ==> s.workers[w] == WorkerState::Terminated
        }),
{
    lemma_initial_consistent::<J>(size);
    lemma_run_keeps_consistent(initial::<J>(size), events);
    lemma_run_follows_events(size, events);
    let s = run(initial::<J>(size), events);
    lemma_count_bound(s.workers, WorkerState::Executing);
    lemma_count_bound(s.workers, WorkerState::Terminated);
    if work_left(s) > 0 {
        if count_in(s.workers, WorkerState::Executing) > 0 {
            let w = choose|w: int| 0 <= w < s.workers.len() && s.workers[w] == WorkerState::Executing;
            let event = Event::<J>::Finish(w as nat, JobOutcome::Completed);
            assert(by_worker(event) && enabled(s, event));
        } else {
            // The queue is not empty and ends in an order to stop, so some
            // worker has not had its own yet; it is not busy, so it waits.
            let w = choose|w: int|
                0 <= w < s.workers.len() && s.workers[w] != WorkerState::Terminated;
            let event = Event::<J>::Take(w as nat);
            assert(by_worker(event) && enabled(s, event));
        }
    }
}

/// Each move of a worker uses up some of the work that is left, so the
/// workers cannot go on for ever: at any moment, a run of worker moves is no
/// longer than the work that was left when it began.
pub proof fn lemma_worker_moves_are_bounded<J>(s: Snapshot<J>, moves: Seq<Event<J>>)
    requires
        valid(s, moves),
        forall|i: int| 0 <= i < moves.len() ==> by_worker(#[trigger] moves[i]),
    ensures
        moves.len() + work_left(run(s, moves)) <= work_left(s),
    decreases moves.len(),
{
    if moves.len() > 0 {
        let earlier = moves.drop_last();
        assert forall|i: int| 0 <= i < earlier.len() implies by_worker(#[trigger] earlier[i]) by {
            assert(earlier[i] == moves[i]);
        }
        lemma_worker_moves_are_bounded(s, earlier);
        let before = run(s, earlier);
        match moves.last() {
            Event::Take(w) => {
                let (state, action) = dispatch(before.queue[0]);
                lemma_count_update(before.workers, w as int, state, WorkerState::Executing);
            },
            Event::Finish(w, _) => {
                lemma_count_update(
                    before.workers,
                    w as int,
                    WorkerState::Waiting,
                    WorkerState::Executing,
                );
            },
            _ => {},
        }
    }
}

/// After the shutdown is ordered no job is taken any more: the pool stays
/// closed whatever happens next, a submission is answered with the closed
/// queue, and it changes nothing.
pub proof fn lemma_submit_after_shutdown_is_refused<J>(size: nat, events: Seq<Event<J>>, job: J)
    requires
        orders_shutdown(events),
    ensures
        run(initial::<J>(size), events).closed,
        execute_result(run(initial::<J>(size), events).closed) == Err::<(), PoolError>(
            PoolError::QueueClosed,
        ),
        step(run(initial::<J>(size), events), Event::Submit(job)) == run(
            initial::<J>(size),
            events,
        ),
{
    lemma_run_follows_events(size, events);
}

/// A worker that runs a job does not keep the others from the queue: whoever
/// waits can take the next message, however long the job runs.
pub proof fn lemma_busy_worker_leaves_queue_free<J>(s: Snapshot<J>, busy: nat, other: nat)
    requires
        busy < s.workers.len(),
        other < s.workers.len(),
        s.workers[busy as int] == WorkerState::Executing,
        s.workers[other as int] == WorkerState::Waiting,
        s.queue.len() > 0,
    ensures
        enabled(s, Event::<J>::Take(other)),
        step(s, Event::<J>::Take(other)).workers[busy as int] == WorkerState::Executing,
{
}

/// A job that fails costs the pool nothing but that job: its worker is back
/// at the queue as after a job that returned, the queue and the other workers
/// are as they were, and if a message waits this worker can take it.
pub proof fn lemma_fault_is_contained<J>(s: Snapshot<J>, w: nat)
    requires
        enabled(s, Event::<J>::Finish(w, JobOutcome::Faulted)),
    ensures
        ({
            let after = step(s, Event::<J>::Finish(w, JobOutcome::Faulted));
            &&& after == step(s, Event::<J>::Finish(w, JobOutcome::Completed))
            &&& after.workers == s.workers.update(w as int, WorkerState::Waiting)
            &&& after.queue == s.queue
            &&& after.closed == s.closed
            &&& s.queue.len() > 0 ==> enabled(after, Event::<J>::Take(w))
        }),
{
}

} // verus!
