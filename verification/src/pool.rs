//! The pool: a fixed set of workers and the queue that feeds them.
//!
//! The pool decides; it runs no thread and no job itself. A job goes in with
//! `execute`. A worker's thread asks for its next step with `receive`, runs
//! the job it is handed with the pool's lock released, and reports back with
//! `complete`. `shutdown` queues one order to stop for each worker, closes the
//! queue and names the workers whose threads the caller then waits for.

use vstd::prelude::*;
use crate::error::{PoolCreationError, SubmissionError};
use crate::laws::{lemma_fresh_pool_is_well_formed, lemma_step_keeps_well_formed};
use crate::message::{Message, terminations};
use crate::model::{Event, PoolModel};
use crate::queue::SharedQueue;
use crate::worker::{Action, Worker, WorkerState};

verus! {

/// A pool of workers whose number is fixed when it is made.
pub struct ThreadPool<J> {
    workers: Vec<Worker>,
    queue: SharedQueue<J>,
}

impl<J> View for ThreadPool<J> {
    type V = PoolModel<J>;

    closed spec fn view(&self) -> PoolModel<J> {
        PoolModel {
            workers: Seq::new(self.workers@.len(), |i: int| self.workers@[i].state()),
            queue: self.queue@.messages,
            closed: self.queue@.closed,
        }
    }
}

impl<J> ThreadPool<J> {
    /// Whether the pool is in order: its model is well formed, and each
    /// worker carries its place in the pool as its index.
    pub closed spec fn wf(&self) -> bool {
        &&& self@.well_formed()
        &&& forall|i: int| 0 <= i < self.workers@.len() ==> (#[trigger] self.workers@[i]).id() == i
    }

    /// A pool in order has a well-formed model, with a number of workers
    /// that can be counted.
    pub proof fn lemma_wf_is_well_formed(&self)
        requires
            self.wf(),
        ensures
            self@.well_formed(),
            self@.size() <= usize::MAX,
    {
        assert(self.workers.len() == self.workers@.len());
    }

    /// Makes a pool of `size` idle workers with an empty, open queue. A pool
    /// without workers is refused.
    pub fn new(size: usize) -> (made: Result<ThreadPool<J>, PoolCreationError>)
        ensures
            size == 0 ==> made == Err::<ThreadPool<J>, PoolCreationError>(PoolCreationError),
            size > 0 ==> made is Ok,
            made matches Ok(pool) ==> pool.wf() && pool@ == PoolModel::<J>::fresh(size as nat),
    {
        if size == 0 {
            return Err(PoolCreationError);
        }
        let mut workers: Vec<Worker> = Vec::new();
        let mut id: usize = 0;
        while id < size
            invariant
                id <= size,
                workers@.len() == id,
                forall|i: int|
                    0 <= i < id ==> (#[trigger] workers@[i]).id() == i && workers@[i].state()
                        == WorkerState::Idle,
            decreases size - id,
        {
            workers.push(Worker::new(id));
            id += 1;
        }
        let pool = ThreadPool { workers, queue: SharedQueue::new() };
        proof {
            lemma_fresh_pool_is_well_formed::<J>(size as nat);
            assert(pool@.workers =~= PoolModel::<J>::fresh(size as nat).workers);
        }
        Ok(pool)
    }

    /// The number of workers.
    pub fn size(&self) -> (size: usize)
        ensures
            size == self@.size(),
    {
        self.workers.len()
    }

    /// Whether teardown has begun.
    pub fn is_closed(&self) -> (closed: bool)
        ensures
            closed == self@.closed,
    {
        self.queue.is_closed()
    }

    /// How many messages wait in the queue.
    pub fn queued(&self) -> (len: usize)
        ensures
            len == self@.queue.len(),
    {
        self.queue.len()
    }

    /// The state of the worker with index `worker`, if the pool has one.
    pub fn state_of(&self, worker: usize) -> (state: Option<WorkerState>)
        ensures
            state == if worker < self@.size() {
                Some(self@.workers[worker as int])
            } else {
                None
            },
    {
        if worker < self.workers.len() {
            Some(self.workers[worker].state())
        } else {
            None
        }
    }

    /// Submits `job`. Before teardown the job is queued behind all that
    /// waits, and the call returns without waiting for it to run. From
    /// teardown on the job is refused and the pool is unchanged.
    pub fn execute(&mut self, job: J) -> (submitted: Result<(), SubmissionError>)
        requires
            old(self).wf(),
        ensures
            final(self).wf(),
            final(self)@ == old(self)@.submit(job),
            submitted == if old(self)@.closed {
                Err::<(), SubmissionError>(SubmissionError)
            } else {
                Ok::<(), SubmissionError>(())
            },
    {
        proof {
            lemma_step_keeps_well_formed(self@, Event::Submit(job));
        }
        self.queue.send(Message::NewJob(job))
    }

    /// The worker with index `worker` asks for a message. An idle worker of
    /// this pool is handed the oldest message, if there is one: a job, which
    /// it now runs, or the order to stop, which ends it. Any other caller, and
    /// an idle worker at an empty queue, is handed nothing and changes
    /// nothing.
    pub fn receive(&mut self, worker: usize) -> (action: Option<Action<J>>)
        requires
            old(self).wf(),
        ensures
            final(self).wf(),
            final(self)@ == old(self)@.receive(worker as int),
            action == old(self)@.received(worker as int),
    {
        proof {
            lemma_step_keeps_well_formed(self@, Event::Receive(worker as int));
        }
        if worker >= self.workers.len() {
            return None;
        }
        match self.workers[worker].state() {
            WorkerState::Idle => {},
            _ => {
                return None;
            },
        }
        match self.queue.receive() {
            None => None,
            Some(message) => {
                let action = self.workers[worker].on_message(message);
                assert(self@.workers =~= old(self)@.receive(worker as int).workers);
                Some(action)
            },
        }
    }

    /// The worker with index `worker` reports that its job has returned, and
    /// waits again. A report from anyone who was running no job changes
    /// nothing.
    pub fn complete(&mut self, worker: usize)
        requires
            old(self).wf(),
        ensures
            final(self).wf(),
            final(self)@ == old(self)@.complete(worker as int),
    {
        proof {
            lemma_step_keeps_well_formed(self@, Event::Complete(worker as int));
        }
        if worker < self.workers.len() {
            self.workers[worker].on_job_done();
            assert(self@.workers =~= old(self)@.complete(worker as int).workers);
        }
    }

    /// Begins teardown. The first call queues one order to stop per worker
    /// behind the jobs that wait, closes the queue, and returns the indices
    /// of all workers in rising order: the threads to wait for, each once. A
    /// later call changes nothing and returns no index.
    pub fn shutdown(&mut self) -> (plan: Vec<usize>)
        requires
            old(self).wf(),
        ensures
            final(self).wf(),
            final(self)@ == old(self)@.shutdown(),
            plan@ == old(self)@.join_plan(),
    {
        proof {
            lemma_step_keeps_well_formed(self@, Event::Shutdown);
        }
        let mut plan: Vec<usize> = Vec::new();
        if self.queue.is_closed() {
            assert(plan@ =~= old(self)@.join_plan());
            return plan;
        }
        let mut i: usize = 0;
        while i < self.workers.len()
            invariant
                i <= self.workers@.len(),
                self.workers == old(self).workers,
                !self.queue@.closed,
                self.queue@.messages == old(self).queue@.messages + terminations::<J>(i as nat),
                forall|k: int| 0 <= k < self.workers@.len() ==> (#[trigger] self.workers@[k]).id() == k,
                plan@ == Seq::new(i as nat, |k: int| k as usize),
            decreases self.workers@.len() - i,
        {
            let _ = self.queue.send(Message::Terminate);
            plan.push(self.workers[i].id());
            assert(self.queue@.messages =~= old(self).queue@.messages + terminations::<J>(
                (i + 1) as nat,
            ));
            assert(plan@ =~= Seq::new((i + 1) as nat, |k: int| k as usize));
            i += 1;
        }
        self.queue.close();
        assert(self@.workers =~= old(self)@.workers);
        plan
    }
}

} // verus!
