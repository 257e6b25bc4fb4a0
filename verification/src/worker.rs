//! One worker of the pool: its place in the pool and where it stands in its
//! loop of waiting, running and leaving.

use vstd::prelude::*;
use crate::message::Message;

verus! {

/// Where a worker stands in its loop.
#[derive(Clone, Copy, Debug, PartialEq, Eq, Structural)]
pub enum WorkerState {
    /// Waiting for a message.
    Idle,
    /// Running a job, outside the queue's lock.
    Executing,
    /// Out of its loop for good. No state follows this one.
    Terminated,
}

/// What a worker does with the message it has just taken from the queue.
#[derive(Debug)]
pub enum Action<J> {
    /// Run this job to its end, then report back and wait again.
    Run(J),
    /// Leave the loop and let the thread end.
    Exit,
}

/// The state in which an idle worker finds itself after it took `message`.
pub open spec fn state_after<J>(message: Message<J>) -> WorkerState {
    match message {
        Message::NewJob(_) => WorkerState::Executing,
        Message::Terminate => WorkerState::Terminated,
    }
}

/// What an idle worker does with `message`.
pub open spec fn action_for<J>(message: Message<J>) -> Action<J> {
    match message {
        Message::NewJob(job) => Action::Run(job),
        Message::Terminate => Action::Exit,
    }
}

/// The state of a worker after the job it was running, if any, has returned.
pub open spec fn state_after_job(state: WorkerState) -> WorkerState {
    match state {
        WorkerState::Executing => WorkerState::Idle,
        other => other,
    }
}

/// A worker: an index that is its own within the pool, and a state.
#[derive(Debug)]
pub struct Worker {
    id: usize,
    state: WorkerState,
}

impl Worker {
    /// The worker's index, as a specification.
    pub closed spec fn spec_id(&self) -> usize {
        self.id
    }

    /// The worker's state, as a specification.
    pub closed spec fn spec_state(&self) -> WorkerState {
        self.state
    }

    /// A worker with the given index, waiting for its first message.
    pub fn new(id: usize) -> (worker: Worker)
        ensures
            worker.id() == id,
            worker.state() == WorkerState::Idle,
    {
        Worker { id, state: WorkerState::Idle }
    }

    /// The worker's index.
    #[verifier::when_used_as_spec(spec_id)]
    pub fn id(&self) -> (id: usize)
        ensures
            id == self.id(),
    {
        self.id
    }

    /// The worker's state.
    #[verifier::when_used_as_spec(spec_state)]
    pub fn state(&self) -> (state: WorkerState)
        ensures
            state == self.state(),
    {
        self.state
    }

    /// An idle worker takes `message`: a job sends it off to run that job, the
    /// order to stop ends it.
    pub fn on_message<J>(&mut self, message: Message<J>) -> (action: Action<J>)
        requires
            old(self).state() == WorkerState::Idle,
        ensures
            final(self).id() == old(self).id(),
            final(self).state() == state_after(message),
            action == action_for(message),
    {
        match message {
            Message::NewJob(job) => {
                self.state = WorkerState::Executing;
                Action::Run(job)
            },
            Message::Terminate => {
                self.state = WorkerState::Terminated;
                Action::Exit
            },
        }
    }

    /// The job that the worker was running has returned: the worker waits
    /// again. A worker that was running none stays as it is.
    pub fn on_job_done(&mut self)
        ensures
            final(self).id() == old(self).id(),
            final(self).state() == state_after_job(old(self).state()),
    {
        match self.state {
            WorkerState::Executing => {
                self.state = WorkerState::Idle;
            },
            _ => {},
        }
    }
}

} // verus!
