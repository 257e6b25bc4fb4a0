//! The pool as a state machine over plain values: what each operation does to
//! the workers and to the queue, and the invariant that every operation keeps.
//!
//! The executable pool states its contracts over this model.

use vstd::prelude::*;
use crate::message::{Message, terminations};
use crate::worker::{Action, WorkerState, action_for, state_after, state_after_job};

verus! {

/// How many of `workers` are in `state`.
pub open spec fn count_in(workers: Seq<WorkerState>, state: WorkerState) -> nat
    decreases workers.len(),
{
    if workers.len() == 0 {
        0
    } else {
        count_in(workers.drop_last(), state) + if workers.last() == state {
            1nat
        } else {
            0nat
        }
    }
}

/// A pool, as plain values.
pub struct PoolModel<J> {
    /// The state of each worker, by the worker's index.
    pub workers: Seq<WorkerState>,
    /// The messages that were sent and not yet taken, oldest first.
    pub queue: Seq<Message<J>>,
    /// Whether teardown has begun, so that the queue takes no more jobs.
    pub closed: bool,
}

/// One thing that happens to a pool.
pub enum Event<J> {
    /// The caller submits a job.
    Submit(J),
    /// The worker with this index asks the queue for a message.
    Receive(int),
    /// The worker with this index reports that its job has returned.
    Complete(int),
    /// The caller tears the pool down.
    Shutdown,
}

impl<J> PoolModel<J> {
    /// A pool as it is made: `size` idle workers, nothing queued, open.
    pub open spec fn fresh(size: nat) -> Self {
        PoolModel {
            workers: Seq::new(size, |i: int| WorkerState::Idle),
            queue: Seq::empty(),
            closed: false,
        }
    }

    /// The number of workers of the pool.
    pub open spec fn size(self) -> nat {
        self.workers.len()
    }

    /// The number of workers that have not left their loop.
    pub open spec fn live(self) -> nat {
        (self.workers.len() - count_in(self.workers, WorkerState::Terminated)) as nat
    }

    /// The number of workers that are running a job.
    pub open spec fn executing(self) -> nat {
        count_in(self.workers, WorkerState::Executing)
    }

    /// The number of orders to stop that the queue must hold: none before
    /// teardown, and from then on one for each worker still in its loop.
    pub open spec fn owed_terminations(self) -> nat {
        if self.closed {
            self.live()
        } else {
            0
        }
    }

    /// The number of jobs that wait in the queue of a well-formed pool.
    pub open spec fn waiting_jobs(self) -> int {
        self.queue.len() - self.owed_terminations()
    }

    /// What holds of a pool at all times. There is at least one worker. The
    /// queue holds jobs first and then exactly the orders to stop that are
    /// owed. Before teardown no worker has left, and once a worker has left
    /// no job waits any more.
    pub open spec fn well_formed(self) -> bool {
        &&& self.workers.len() > 0
        &&& 0 <= self.waiting_jobs()
        &&& forall|i: int| 0 <= i < self.waiting_jobs() ==> #[trigger] self.queue[i] is NewJob
        &&& forall|i: int|
            self.waiting_jobs() <= i < self.queue.len() ==> #[trigger] self.queue[i] is Terminate
        &&& !self.closed ==> self.live() == self.workers.len()
        &&& self.live() < self.workers.len() ==> self.waiting_jobs() == 0
    }

    /// Whether `worker` can take a message now: it is a worker of this pool,
    /// it is idle, and the queue holds something.
    pub open spec fn can_receive(self, worker: int) -> bool {
        &&& 0 <= worker < self.workers.len()
        &&& self.workers[worker] == WorkerState::Idle
        &&& self.queue.len() > 0
    }

    /// Whether `worker` is running a job.
    pub open spec fn is_executing(self, worker: int) -> bool {
        &&& 0 <= worker < self.workers.len()
        &&& self.workers[worker] == WorkerState::Executing
    }

    /// The pool after `job` was submitted: an open pool queues it last, a
    /// closed pool is unchanged.
    pub open spec fn submit(self, job: J) -> Self {
        if self.closed {
            self
        } else {
            PoolModel { queue: self.queue.push(Message::NewJob(job)), ..self }
        }
    }

    /// The pool after `worker` asked for a message: where it can take one, the
    /// oldest message has left the queue and the worker's state follows from
    /// it; otherwise nothing has changed.
    pub open spec fn receive(self, worker: int) -> Self {
        if self.can_receive(worker) {
            PoolModel {
                workers: self.workers.update(worker, state_after(self.queue.first())),
                queue: self.queue.drop_first(),
                ..self
            }
        } else {
            self
        }
    }

    /// What `worker` is told to do when it asks for a message: what the
    /// oldest message says, or nothing where it cannot take one.
    pub open spec fn received(self, worker: int) -> Option<Action<J>> {
        if self.can_receive(worker) {
            Some(action_for(self.queue.first()))
        } else {
            None
        }
    }

    /// The pool after `worker` reported that its job has returned.
    pub open spec fn complete(self, worker: int) -> Self {
        if 0 <= worker < self.workers.len() {
            PoolModel {
                workers: self.workers.update(worker, state_after_job(self.workers[worker])),
                ..self
            }
        } else {
            self
        }
    }

    /// The pool after teardown was asked for: the first time, one order to
    /// stop per worker is queued behind the jobs and the queue is closed;
    /// after that nothing changes.
    pub open spec fn shutdown(self) -> Self {
        if self.closed {
            self
        } else {
            PoolModel {
                queue: self.queue + terminations::<J>(self.workers.len()),
                closed: true,
                ..self
            }
        }
    }

    /// The workers whose threads teardown has to wait for, in the order in
    /// which it waits: every worker by rising index the first time, none
    /// after that.
    pub open spec fn join_plan(self) -> Seq<usize> {
        if self.closed {
            Seq::empty()
        } else {
            Seq::new(self.workers.len(), |i: int| i as usize)
        }
    }

    /// The pool after one event.
    pub open spec fn step(self, event: Event<J>) -> Self {
        match event {
            Event::Submit(job) => self.submit(job),
            Event::Receive(worker) => self.receive(worker),
            Event::Complete(worker) => self.complete(worker),
            Event::Shutdown => self.shutdown(),
        }
    }

    /// The pool after a run of events, the first of them first.
    pub open spec fn run(self, events: Seq<Event<J>>) -> Self
        decreases events.len(),
    {
        if events.len() == 0 {
            self
        } else {
            self.run(events.drop_last()).step(events.last())
        }
    }

    /// The jobs that one event puts into the queue.
    pub open spec fn accepted_by(self, event: Event<J>) -> Seq<J> {
        match event {
            Event::Submit(job) => if self.closed {
                Seq::empty()
            } else {
                seq![job]
            },
            _ => Seq::empty(),
        }
    }

    /// The jobs that one event hands to a worker.
    pub open spec fn handed_out_by(self, event: Event<J>) -> Seq<J> {
        match event {
            Event::Receive(worker) => match self.received(worker) {
                Some(Action::Run(job)) => seq![job],
                _ => Seq::empty(),
            },
            _ => Seq::empty(),
        }
    }

    /// How many jobs one event reports as returned.
    pub open spec fn completed_by(self, event: Event<J>) -> nat {
        match event {
            Event::Complete(worker) => if self.is_executing(worker) {
                1
            } else {
                0
            },
            _ => 0,
        }
    }

    /// The jobs that a run of events puts into the queue, in that order.
    pub open spec fn accepted(self, events: Seq<Event<J>>) -> Seq<J>
        decreases events.len(),
    {
        if events.len() == 0 {
            Seq::empty()
        } else {
            self.accepted(events.drop_last()) + self.run(events.drop_last()).accepted_by(
                events.last(),
            )
        }
    }

    /// The jobs that a run of events hands to workers, in that order.
    pub open spec fn handed_out(self, events: Seq<Event<J>>) -> Seq<J>
        decreases events.len(),
    {
        if events.len() == 0 {
            Seq::empty()
        } else {
            self.handed_out(events.drop_last()) + self.run(events.drop_last()).handed_out_by(
                events.last(),
            )
        }
    }

    /// How many jobs a run of events reports as returned.
    pub open spec fn completed(self, events: Seq<Event<J>>) -> nat
        decreases events.len(),
    {
        if events.len() == 0 {
            0
        } else {
            self.completed(events.drop_last()) + self.run(events.drop_last()).completed_by(
                events.last(),
            )
        }
    }

    /// An upper bound on the steps that the workers can still take: two for
    /// each message that waits, one for each job that runs.
    pub open spec fn work_left(self) -> nat {
        2 * self.queue.len() + self.executing()
    }
}

} // verus!
