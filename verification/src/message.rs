//! The unit that travels through the shared queue.

use vstd::prelude::*;

verus! {

/// What a worker finds in the queue: a job to run, or the order to stop.
pub enum Message<J> {
    /// Run this job, once.
    NewJob(J),
    /// Leave the loop; the worker that takes this takes nothing after it.
    Terminate,
}

} // verus!
