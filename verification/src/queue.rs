//! The shared queue: one first-in, first-out line of messages.

use crate::message::Message;
use std::collections::VecDeque;
use vstd::prelude::*;

verus! {

/// The line of messages between the pool and its workers. Messages leave in
/// the order in which they came; none is lost and none leaves twice.
pub struct SharedQueue<J> {
    pending: VecDeque<Message<J>>,
}

impl<J> View for SharedQueue<J> {
    type V = Seq<Message<J>>;

    closed spec fn view(&self) -> Seq<Message<J>> {
        self.pending@
    }
}

impl<J> SharedQueue<J> {
    /// An empty queue.
    pub fn new() -> (queue: Self)
        ensures
            queue@ == Seq::<Message<J>>::empty(),
    {
        SharedQueue { pending: VecDeque::new() }
    }

    /// Puts `message` at the back of the line.
    pub fn send(&mut self, message: Message<J>)
        ensures
            final(self)@ == old(self)@.push(message),
    {
        self.pending.push_back(message);
    }

    /// Takes the message at the front of the line, if there is one.
    pub fn recv(&mut self) -> (message: Option<Message<J>>)
        ensures
            old(self)@.len() == 0 ==> message is None && final(self)@ == old(self)@,
            old(self)@.len() > 0 ==> message == Some(old(self)@[0]) && final(self)@ == old(
                self,
            )@.subrange(1, old(self)@.len() as int),
    {
        self.pending.pop_front()
    }

    /// How many messages wait in the line.
    pub fn len(&self) -> (n: usize)
        ensures
            n == self@.len(),
    {
        self.pending.len()
    }

    /// Whether no message waits in the line.
    pub fn is_empty(&self) -> (empty: bool)
        ensures
            empty == (self@.len() == 0),
    {
        self.pending.len() == 0
    }
}

} // verus!
