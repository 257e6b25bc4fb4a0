//! The queue between the pool and its workers.
//!
//! Messages leave in the order in which they were sent, and each leaves once:
//! taking a message removes it, so no second taker can see it. The queue holds
//! no lock of its own. Whoever shares it between threads puts it behind a lock
//! that admits one caller at a time, for the length of one call.

use std::collections::VecDeque;
use vstd::prelude::*;
use crate::error::SubmissionError;
use crate::message::Message;

verus! {

/// What a queue holds, as plain values.
pub struct QueueModel<J> {
    /// The messages that were sent and not yet taken, oldest first.
    pub messages: Seq<Message<J>>,
    /// Whether the queue has stopped taking messages in.
    pub closed: bool,
}

/// A first-in, first-out queue of messages that can be closed to senders.
pub struct SharedQueue<J> {
    messages: VecDeque<Message<J>>,
    closed: bool,
}

impl<J> View for SharedQueue<J> {
    type V = QueueModel<J>;

    closed spec fn view(&self) -> QueueModel<J> {
        QueueModel { messages: self.messages@, closed: self.closed }
    }
}

impl<J> SharedQueue<J> {
    /// An open queue that holds nothing.
    pub fn new() -> (queue: SharedQueue<J>)
        ensures
            queue@.messages == Seq::<Message<J>>::empty(),
            !queue@.closed,
    {
        SharedQueue { messages: VecDeque::new(), closed: false }
    }

    /// Puts `message` behind all that the queue holds. A closed queue takes
    /// nothing in and says so.
    pub fn send(&mut self, message: Message<J>) -> (sent: Result<(), SubmissionError>)
        ensures
            final(self)@.closed == old(self)@.closed,
            old(self)@.closed ==> sent == Err::<(), SubmissionError>(SubmissionError)
                && final(self)@.messages == old(self)@.messages,
            !old(self)@.closed ==> sent == Ok::<(), SubmissionError>(())
                && final(self)@.messages == old(self)@.messages.push(message),
    {
        if self.closed {
            Err(SubmissionError)
        } else {
            self.messages.push_back(message);
            Ok(())
        }
    }

    /// Takes the oldest message out of the queue, or nothing where the queue
    /// is empty. A closed queue still hands out what it holds.
    pub fn receive(&mut self) -> (taken: Option<Message<J>>)
        ensures
            final(self)@.closed == old(self)@.closed,
            old(self)@.messages.len() == 0 ==> taken.is_none()
                && final(self)@.messages == old(self)@.messages,
            old(self)@.messages.len() > 0 ==> taken == Some(old(self)@.messages.first())
                && final(self)@.messages == old(self)@.messages.drop_first(),
    {
        self.messages.pop_front()
    }

    /// Closes the queue to senders, for good.
    pub fn close(&mut self)
        ensures
            final(self)@.closed,
            final(self)@.messages == old(self)@.messages,
    {
        self.closed = true;
    }

    /// Whether the queue has been closed.
    pub fn is_closed(&self) -> (closed: bool)
        ensures
            closed == self@.closed,
    {
        self.closed
    }

    /// How many messages wait in the queue.
    pub fn len(&self) -> (len: usize)
        ensures
            len == self@.messages.len(),
    {
        self.messages.len()
    }

    /// Whether no message waits in the queue.
    pub fn is_empty(&self) -> (empty: bool)
        ensures
            empty == (self@.messages.len() == 0),
    {
        self.messages.len() == 0
    }
}

} // verus!
