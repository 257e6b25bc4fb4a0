//! What holds of the pool whatever its callers and workers do, proved over
//! the model.

use vstd::prelude::*;
use crate::message::{
    Message, jobs_of, lemma_jobs_of_drop_first, lemma_jobs_of_push, lemma_jobs_of_terminations,
    terminations,
};
use crate::model::{Event, PoolModel, count_in};
use crate::worker::{Action, WorkerState, state_after, state_after_job};

verus! {

/// No more workers are in a state than there are workers.
pub proof fn lemma_count_in_bounded(workers: Seq<WorkerState>, state: WorkerState)
    ensures
        count_in(workers, state) <= workers.len(),
    decreases workers.len(),
{
    if workers.len() > 0 {
        lemma_count_in_bounded(workers.drop_last(), state);
    }
}

/// A worker that changes its state leaves the count of the old state and
/// joins the count of the new one.
pub proof fn lemma_count_in_update(
    workers: Seq<WorkerState>,
    worker: int,
    to: WorkerState,
    state: WorkerState,
)
    requires
        0 <= worker < workers.len(),
    ensures
        count_in(workers.update(worker, to), state) + (if workers[worker] == state {
            1nat
        } else {
            0nat
        }) == count_in(workers, state) + (if to == state {
            1nat
        } else {
            0nat
        }),
    decreases workers.len(),
{
    let updated = workers.update(worker, to);
    if worker == workers.len() - 1 {
        assert(updated.drop_last() =~= workers.drop_last());
    } else {
        lemma_count_in_update(workers.drop_last(), worker, to, state);
        assert(updated.drop_last() =~= workers.drop_last().update(worker, to));
    }
}

/// Where every worker is in one state, the count of that state is the number
/// of workers and the count of any other state is zero.
pub proof fn lemma_count_in_uniform(
    workers: Seq<WorkerState>,
    all: WorkerState,
    state: WorkerState,
)
    requires
        forall|i: int| 0 <= i < workers.len() ==> workers[i] == all,
    ensures
        count_in(workers, state) == if state == all {
            workers.len()
        } else {
            0
        },
    decreases workers.len(),
{
    if workers.len() > 0 {
        lemma_count_in_uniform(workers.drop_last(), all, state);
    }
}

/// Where fewer workers are in a state than there are workers, some worker is
/// in another state.
pub proof fn lemma_count_in_leaves_one(workers: Seq<WorkerState>, state: WorkerState) -> (worker:
    int)
    requires
        count_in(workers, state) < workers.len(),
    ensures
        0 <= worker < workers.len(),
        workers[worker] != state,
    decreases workers.len(),
{
    if workers.last() != state {
        workers.len() - 1
    } else {
        lemma_count_in_leaves_one(workers.drop_last(), state)
    }
}

/// Where as many workers are in a state as there are workers, every worker is
/// in that state.
pub proof fn lemma_count_in_full(workers: Seq<WorkerState>, state: WorkerState)
    requires
        count_in(workers, state) == workers.len(),
    ensures
        forall|i: int| 0 <= i < workers.len() ==> workers[i] == state,
    decreases workers.len(),
{
    if workers.len() > 0 {
        lemma_count_in_bounded(workers.drop_last(), state);
        lemma_count_in_full(workers.drop_last(), state);
        assert forall|i: int| 0 <= i < workers.len() implies workers[i] == state by {
            if i < workers.len() - 1 {
                assert(workers[i] == workers.drop_last()[i]);
            }
        }
    }
}

/// A pool made with at least one worker is well formed, every one of its
/// workers is in its loop and idle, and nothing runs or waits.
pub proof fn lemma_fresh_pool_is_well_formed<J>(size: nat)
    requires
        size > 0,
    ensures
        PoolModel::<J>::fresh(size).well_formed(),
        PoolModel::<J>::fresh(size).size() == size,
        PoolModel::<J>::fresh(size).live() == size,
        PoolModel::<J>::fresh(size).executing() == 0,
        PoolModel::<J>::fresh(size).work_left() == 0,
{
    let pool = PoolModel::<J>::fresh(size);
    lemma_count_in_uniform(pool.workers, WorkerState::Idle, WorkerState::Terminated);
    lemma_count_in_uniform(pool.workers, WorkerState::Idle, WorkerState::Executing);
}

/// Every event keeps a well-formed pool well formed, and none changes the
/// number of its workers.
pub proof fn lemma_step_keeps_well_formed<J>(pool: PoolModel<J>, event: Event<J>)
    requires
        pool.well_formed(),
    ensures
        pool.step(event).well_formed(),
        pool.step(event).size() == pool.size(),
{
    let next = pool.step(event);
    lemma_count_in_bounded(pool.workers, WorkerState::Terminated);
    match event {
        Event::Submit(job) => {
            if !pool.closed {
                assert forall|i: int| 0 <= i < next.waiting_jobs() implies #[trigger] next.queue[i]
                    is NewJob by {
                    if i < pool.queue.len() {
                        assert(next.queue[i] == pool.queue[i]);
                    }
                }
            }
        },
        Event::Receive(worker) => {
            if pool.can_receive(worker) {
                let first = pool.queue.first();
                lemma_count_in_update(
                    pool.workers,
                    worker,
                    state_after(first),
                    WorkerState::Terminated,
                );
                assert(pool.queue[0] == first);
                assert forall|i: int| 0 <= i < next.queue.len() implies next.queue[i]
                    == pool.queue[i + 1] by {}
                match first {
                    Message::NewJob(_) => {
                        assert(pool.waiting_jobs() > 0);
                        assert(next.waiting_jobs() == pool.waiting_jobs() - 1);
                        assert forall|i: int| 0 <= i < next.waiting_jobs() implies
                            #[trigger] next.queue[i] is NewJob by {
                            assert(pool.queue[i + 1] is NewJob);
                        }
                        assert forall|i: int|
                            next.waiting_jobs() <= i < next.queue.len() implies
                            #[trigger] next.queue[i] is Terminate by {
                            assert(pool.queue[i + 1] is Terminate);
                        }
                    },
                    Message::Terminate => {
                        assert(pool.waiting_jobs() == 0);
                        assert(pool.closed);
                        assert(next.waiting_jobs() == 0);
                        assert forall|i: int|
                            next.waiting_jobs() <= i < next.queue.len() implies
                            #[trigger] next.queue[i] is Terminate by {
                            assert(pool.queue[i + 1] is Terminate);
                        }
                    },
                }
            }
        },
        Event::Complete(worker) => {
            if 0 <= worker < pool.workers.len() {
                lemma_count_in_update(
                    pool.workers,
                    worker,
                    state_after_job(pool.workers[worker]),
                    WorkerState::Terminated,
                );
            }
        },
        Event::Shutdown => {
            if !pool.closed {
                assert forall|i: int| 0 <= i < next.waiting_jobs() implies #[trigger] next.queue[i]
                    is NewJob by {
                    assert(next.queue[i] == pool.queue[i]);
                }
            }
        },
    }
}

/// A run of events keeps a well-formed pool well formed, with as many
/// workers as it had: the size of a pool never changes.
pub proof fn lemma_run_keeps_well_formed<J>(pool: PoolModel<J>, events: Seq<Event<J>>)
    requires
        pool.well_formed(),
    ensures
        pool.run(events).well_formed(),
        pool.run(events).size() == pool.size(),
    decreases events.len(),
{
    if events.len() > 0 {
        lemma_run_keeps_well_formed(pool, events.drop_last());
        lemma_step_keeps_well_formed(pool.run(events.drop_last()), events.last());
    }
}

/// The number of workers of a pool never changes, whatever happens.
pub proof fn lemma_size_is_fixed<J>(pool: PoolModel<J>, events: Seq<Event<J>>)
    ensures
        pool.run(events).size() == pool.size(),
    decreases events.len(),
{
    if events.len() > 0 {
        lemma_size_is_fixed(pool, events.drop_last());
    }
}

/// Every job is handed out at most once, and in the order of submission.
/// After any run of events, the jobs handed to workers followed by the jobs
/// that still wait are the jobs that waited at the start followed by the jobs
/// taken in since: none is lost, none is handed out twice, none overtakes
/// another.
pub proof fn lemma_jobs_handed_out_once_in_order<J>(pool: PoolModel<J>, events: Seq<Event<J>>)
    ensures
        pool.handed_out(events) + jobs_of(pool.run(events).queue) == jobs_of(pool.queue)
            + pool.accepted(events),
    decreases events.len(),
{
    if events.len() == 0 {
        assert(pool.handed_out(events) + jobs_of(pool.queue) =~= jobs_of(pool.queue)
            + pool.accepted(events));
    } else {
        let before = pool.run(events.drop_last());
        let after = pool.run(events);
        let handed = pool.handed_out(events.drop_last());
        let taken = pool.accepted(events.drop_last());
        lemma_jobs_handed_out_once_in_order(pool, events.drop_last());
        assert(handed + jobs_of(before.queue) == jobs_of(pool.queue) + taken);
        match events.last() {
            Event::Submit(job) => {
                if !before.closed {
                    lemma_jobs_of_push(before.queue, Message::NewJob(job));
                    assert(handed + jobs_of(before.queue).push(job) =~= (handed + jobs_of(
                        before.queue,
                    )).push(job));
                    assert(jobs_of(pool.queue) + (taken + seq![job]) =~= (jobs_of(pool.queue)
                        + taken).push(job));
                } else {
                    assert(taken + Seq::<J>::empty() =~= taken);
                }
                assert(handed + Seq::<J>::empty() =~= handed);
            },
            Event::Receive(worker) => {
                assert(taken + Seq::<J>::empty() =~= taken);
                if before.can_receive(worker) {
                    lemma_jobs_of_drop_first(before.queue);
                    match before.queue.first() {
                        Message::NewJob(job) => {
                            assert((handed + seq![job]) + jobs_of(after.queue) =~= handed + (
                            seq![job] + jobs_of(after.queue)));
                        },
                        Message::Terminate => {
                            assert(handed + Seq::<J>::empty() =~= handed);
                        },
                    }
                } else {
                    assert(handed + Seq::<J>::empty() =~= handed);
                }
            },
            Event::Complete(worker) => {
                assert(taken + Seq::<J>::empty() =~= taken);
                assert(handed + Seq::<J>::empty() =~= handed);
            },
            Event::Shutdown => {
                assert(taken + Seq::<J>::empty() =~= taken);
                assert(handed + Seq::<J>::empty() =~= handed);
                if !before.closed {
                    lemma_jobs_of_terminations(before.queue, before.workers.len());
                }
            },
        }
    }
}

/// Every job handed out is either running or reported as returned. After any
/// run of events, the jobs handed to workers, counted with those that ran at
/// the start, are the jobs reported as returned, counted with those that run
/// at the end.
pub proof fn lemma_handed_out_jobs_run_or_returned<J>(pool: PoolModel<J>, events: Seq<Event<J>>)
    ensures
        pool.handed_out(events).len() + pool.executing() == pool.completed(events) + pool.run(
            events,
        ).executing(),
    decreases events.len(),
{
    if events.len() > 0 {
        let before = pool.run(events.drop_last());
        lemma_handed_out_jobs_run_or_returned(pool, events.drop_last());
        match events.last() {
            Event::Receive(worker) => {
                if before.can_receive(worker) {
                    lemma_count_in_update(
                        before.workers,
                        worker,
                        state_after(before.queue.first()),
                        WorkerState::Executing,
                    );
                }
            },
            Event::Complete(worker) => {
                if 0 <= worker < before.workers.len() {
                    lemma_count_in_update(
                        before.workers,
                        worker,
                        state_after_job(before.workers[worker]),
                        WorkerState::Executing,
                    );
                }
            },
            _ => {},
        }
    }
}

/// Once every worker of a well-formed pool has left its loop, the queue is
/// closed and empty and nothing runs.
pub proof fn lemma_nothing_left_when_workers_gone<J>(pool: PoolModel<J>)
    requires
        pool.well_formed(),
        pool.live() == 0,
    ensures
        pool.closed,
        pool.queue.len() == 0,
        pool.executing() == 0,
        forall|i: int| 0 <= i < pool.size() ==> pool.workers[i] == WorkerState::Terminated,
{
    lemma_count_in_bounded(pool.workers, WorkerState::Terminated);
    lemma_count_in_full(pool.workers, WorkerState::Terminated);
    lemma_count_in_uniform(pool.workers, WorkerState::Terminated, WorkerState::Executing);
}

/// Every job runs exactly once. In a pool that was made with at least one
/// worker and has since seen all its workers leave, the jobs handed to
/// workers are the jobs that were taken in, each once and in the order of
/// submission, and every one of them was reported as returned.
pub proof fn lemma_every_job_runs_once<J>(size: nat, events: Seq<Event<J>>)
    requires
        size > 0,
        PoolModel::<J>::fresh(size).run(events).live() == 0,
    ensures
        PoolModel::<J>::fresh(size).handed_out(events) == PoolModel::<J>::fresh(size).accepted(
            events,
        ),
        PoolModel::<J>::fresh(size).completed(events) == PoolModel::<J>::fresh(size).accepted(
            events,
        ).len(),
{
    let pool = PoolModel::<J>::fresh(size);
    lemma_fresh_pool_is_well_formed::<J>(size);
    lemma_run_keeps_well_formed(pool, events);
    lemma_nothing_left_when_workers_gone(pool.run(events));
    lemma_jobs_handed_out_once_in_order(pool, events);
    lemma_handed_out_jobs_run_or_returned(pool, events);
    assert(jobs_of(pool.run(events).queue) =~= Seq::<J>::empty());
    assert(jobs_of(pool.queue) =~= Seq::<J>::empty());
    assert(pool.handed_out(events) + Seq::<J>::empty() =~= pool.handed_out(events));
    assert(Seq::<J>::empty() + pool.accepted(events) =~= pool.accepted(events));
}

/// Tearing a pool down twice is tearing it down once: the second call
/// changes nothing and names no worker to wait for.
pub proof fn lemma_shutdown_is_idempotent<J>(pool: PoolModel<J>)
    ensures
        pool.shutdown().closed,
        pool.shutdown().shutdown() == pool.shutdown(),
        pool.shutdown().join_plan() == Seq::<usize>::empty(),
{
}

/// The first teardown reaches every worker. It leaves the jobs that wait
/// where they are, queues behind them as many orders to stop as the pool has
/// workers, and names every worker once, by rising index.
pub proof fn lemma_first_shutdown_reaches_every_worker<J>(pool: PoolModel<J>)
    requires
        !pool.closed,
        pool.size() <= usize::MAX,
    ensures
        pool.shutdown().queue == pool.queue + terminations::<J>(pool.size()),
        jobs_of(pool.shutdown().queue) == jobs_of(pool.queue),
        pool.shutdown().workers == pool.workers,
        pool.join_plan().len() == pool.size(),
        forall|i: int| 0 <= i < pool.size() ==> pool.join_plan()[i] as int == i,
{
    lemma_jobs_of_terminations(pool.queue, pool.size());
}

/// A pool of one worker runs one job at a time: its worker is handed a job
/// only while no job runs. With the order in which jobs are handed out, this
/// makes such a pool run its jobs one after the other in the order of
/// submission.
pub proof fn lemma_single_worker_runs_one_job_at_a_time<J>(pool: PoolModel<J>, worker: int)
    requires
        pool.size() == 1,
        pool.received(worker).is_some(),
    ensures
        worker == 0,
        pool.executing() == 0,
{
    lemma_count_in_uniform(pool.workers, WorkerState::Idle, WorkerState::Executing);
}

/// A closed pool stays closed and takes no job in, whatever happens.
pub proof fn lemma_closed_for_good<J>(pool: PoolModel<J>, events: Seq<Event<J>>)
    requires
        pool.closed,
    ensures
        pool.run(events).closed,
        pool.accepted(events) == Seq::<J>::empty(),
        forall|job: J| pool.run(events).submit(job) == pool.run(events),
    decreases events.len(),
{
    if events.len() > 0 {
        lemma_closed_for_good(pool, events.drop_last());
        assert(pool.accepted(events) =~= Seq::<J>::empty());
    }
}

/// A worker that has left its loop stays out of it and takes no message,
/// whatever happens.
pub proof fn lemma_terminated_for_good<J>(pool: PoolModel<J>, worker: int, events: Seq<Event<J>>)
    requires
        0 <= worker < pool.size(),
        pool.workers[worker] == WorkerState::Terminated,
    ensures
        pool.run(events).size() == pool.size(),
        pool.run(events).workers[worker] == WorkerState::Terminated,
        pool.run(events).received(worker).is_none(),
    decreases events.len(),
{
    if events.len() > 0 {
        lemma_terminated_for_good(pool, worker, events.drop_last());
    }
}

/// After teardown no worker waits in vain. As long as a worker of a closed,
/// well-formed pool is in its loop, some worker can take a message or is
/// running a job.
pub proof fn lemma_some_worker_can_go_on<J>(pool: PoolModel<J>) -> (worker: int)
    requires
        pool.well_formed(),
        pool.closed,
        pool.live() > 0,
    ensures
        pool.can_receive(worker) || pool.is_executing(worker),
{
    lemma_count_in_bounded(pool.workers, WorkerState::Terminated);
    lemma_count_in_leaves_one(pool.workers, WorkerState::Terminated)
}

/// Every step that a worker takes uses up work: taking a message and
/// reporting a job as returned both lower the bound on the steps that are
/// left. So the workers of a closed pool all leave after finitely many steps.
pub proof fn lemma_steps_use_up_work<J>(pool: PoolModel<J>, worker: int)
    ensures
        pool.can_receive(worker) ==> pool.receive(worker).work_left() < pool.work_left(),
        pool.is_executing(worker) ==> pool.complete(worker).work_left() < pool.work_left(),
{
    if pool.can_receive(worker) {
        lemma_count_in_update(
            pool.workers,
            worker,
            state_after(pool.queue.first()),
            WorkerState::Executing,
        );
    }
    if pool.is_executing(worker) {
        lemma_count_in_update(
            pool.workers,
            worker,
            state_after_job(pool.workers[worker]),
            WorkerState::Executing,
        );
    }
}

/// Running one run of events after another is running the two joined.
pub proof fn lemma_run_append<J>(pool: PoolModel<J>, first: Seq<Event<J>>, then: Seq<Event<J>>)
    ensures
        pool.run(first + then) == pool.run(first).run(then),
    decreases then.len(),
{
    if then.len() == 0 {
        assert(first + then =~= first);
    } else {
        lemma_run_append(pool, first, then.drop_last());
        assert((first + then).drop_last() =~= first + then.drop_last());
        assert((first + then).last() == then.last());
    }
}

/// Whether every event of a run is a step of a worker: taking a message, or
/// reporting a job as returned.
pub open spec fn worker_steps<J>(events: Seq<Event<J>>) -> bool {
    forall|i: int|
        0 <= i < events.len() ==> (#[trigger] events[i]) is Receive || events[i] is Complete
}

/// Teardown can always be brought to its end. From a closed, well-formed
/// pool the workers alone, in no more steps than the work that is left, reach
/// the point where every one of them has left its loop.
pub proof fn lemma_workers_can_all_leave<J>(pool: PoolModel<J>) -> (events: Seq<Event<J>>)
    requires
        pool.well_formed(),
        pool.closed,
    ensures
        worker_steps(events),
        events.len() <= pool.work_left(),
        pool.run(events).live() == 0,
    decreases pool.work_left(),
{
    if pool.live() == 0 {
        Seq::empty()
    } else {
        let worker = lemma_some_worker_can_go_on(pool);
        let event = if pool.can_receive(worker) {
            Event::Receive(worker)
        } else {
            Event::Complete(worker)
        };
        let next = pool.step(event);
        lemma_steps_use_up_work(pool, worker);
        lemma_step_keeps_well_formed(pool, event);
        let rest = lemma_workers_can_all_leave(next);
        lemma_run_append(pool, seq![event], rest);
        assert(seq![event].drop_last() =~= Seq::<Event<J>>::empty());
        assert(pool.run(Seq::<Event<J>>::empty()) == pool);
        assert(pool.run(seq![event]) == next);
        seq![event] + rest
    }
}

/// A job that a worker is told to run is the oldest message of the queue, and
/// is in the queue no more: no second worker can be handed it.
pub proof fn lemma_received_job_leaves_queue<J>(pool: PoolModel<J>, worker: int, job: J)
    requires
        pool.received(worker) == Some(Action::Run(job)),
    ensures
        pool.queue.len() > 0,
        pool.queue.first() == Message::NewJob(job),
        pool.receive(worker).queue == pool.queue.drop_first(),
        jobs_of(pool.queue) == seq![job] + jobs_of(pool.receive(worker).queue),
{
    lemma_jobs_of_drop_first(pool.queue);
}

} // verus!
