use worker_pool::error::{PoolCreationError, SubmissionError};
use worker_pool::pool::ThreadPool;
use worker_pool::worker::{Action, WorkerState};

fn pool_of(size: usize) -> ThreadPool<u32> {
    match ThreadPool::new(size) {
        Ok(pool) => pool,
        Err(_) => panic!("a pool of {} workers was refused", size),
    }
}

fn job_of(action: Option<Action<u32>>) -> Option<u32> {
    match action {
        Some(Action::Run(job)) => Some(job),
        _ => None,
    }
}

fn is_exit(action: &Option<Action<u32>>) -> bool {
    matches!(action, Some(Action::Exit))
}

fn states(pool: &ThreadPool<u32>) -> Vec<WorkerState> {
    let mut all = Vec::new();
    for worker in 0..pool.size() {
        match pool.state_of(worker) {
            Some(state) => all.push(state),
            None => panic!("worker {} is missing", worker),
        }
    }
    all
}

#[test]
fn new_pool_has_the_workers_asked_for() {
    for size in [1usize, 2, 4, 17] {
        let pool = pool_of(size);
        assert_eq!(pool.size(), size);
        assert_eq!(states(&pool), vec![WorkerState::Idle; size]);
        assert_eq!(pool.state_of(size), None);
        assert_eq!(pool.queued(), 0);
        assert!(!pool.is_closed());
    }
}

#[test]
fn new_pool_without_workers_is_refused() {
    let made: Result<ThreadPool<u32>, PoolCreationError> = ThreadPool::new(0);
    match made {
        Ok(_) => panic!("a pool without workers was made"),
        Err(error) => assert_eq!(error, PoolCreationError),
    }
}

#[test]
fn execute_queues_without_running() {
    let mut pool = pool_of(2);
    assert_eq!(pool.execute(5), Ok(()));
    assert_eq!(pool.execute(6), Ok(()));
    assert_eq!(pool.queued(), 2);
    assert_eq!(states(&pool), vec![WorkerState::Idle, WorkerState::Idle]);
}

#[test]
fn more_jobs_than_workers_each_handed_out_once() {
    let workers = 3usize;
    let jobs = 10u32;
    let mut pool = pool_of(workers);
    for job in 0..jobs {
        assert_eq!(pool.execute(job), Ok(()));
    }
    let mut runs = vec![0u32; 10];
    let mut handed = Vec::new();
    let mut turn = 0usize;
    while pool.queued() > 0 {
        let worker = turn % workers;
        pool.complete(worker);
        match job_of(pool.receive(worker)) {
            Some(job) => {
                runs[job as usize] += 1;
                handed.push(job);
                assert_eq!(pool.state_of(worker), Some(WorkerState::Executing));
            }
            None => panic!("an idle worker got nothing from a queue that holds jobs"),
        }
        turn += 1;
    }
    assert_eq!(runs, vec![1u32; 10]);
    assert_eq!(handed, (0..jobs).collect::<Vec<u32>>());
    for worker in 0..workers {
        pool.complete(worker);
        assert!(pool.receive(worker).is_none());
    }
}

#[test]
fn a_job_goes_to_one_worker_only() {
    let mut pool = pool_of(2);
    assert_eq!(pool.execute(41), Ok(()));
    assert_eq!(job_of(pool.receive(1)), Some(41));
    assert_eq!(pool.queued(), 0);
    assert!(pool.receive(0).is_none());
    assert_eq!(states(&pool), vec![WorkerState::Idle, WorkerState::Executing]);
}

#[test]
fn receive_hands_nothing_to_those_who_cannot_take() {
    let mut pool = pool_of(2);
    assert!(pool.receive(0).is_none());
    assert_eq!(pool.execute(1), Ok(()));
    assert_eq!(pool.execute(2), Ok(()));
    assert!(pool.receive(2).is_none());
    assert!(pool.receive(usize::MAX).is_none());
    assert_eq!(job_of(pool.receive(0)), Some(1));
    assert!(pool.receive(0).is_none());
    assert_eq!(pool.queued(), 1);
    assert_eq!(states(&pool), vec![WorkerState::Executing, WorkerState::Idle]);
}

#[test]
fn complete_returns_a_worker_to_waiting() {
    let mut pool = pool_of(1);
    pool.complete(0);
    assert_eq!(pool.state_of(0), Some(WorkerState::Idle));
    assert_eq!(pool.execute(3), Ok(()));
    assert_eq!(job_of(pool.receive(0)), Some(3));
    assert_eq!(pool.state_of(0), Some(WorkerState::Executing));
    pool.complete(0);
    assert_eq!(pool.state_of(0), Some(WorkerState::Idle));
    pool.complete(5);
    assert_eq!(states(&pool), vec![WorkerState::Idle]);
}

#[test]
fn single_worker_runs_jobs_in_submission_order() {
    let mut pool: ThreadPool<&str> = match ThreadPool::new(1) {
        Ok(pool) => pool,
        Err(_) => panic!("a pool of one worker was refused"),
    };
    assert_eq!(pool.execute("1"), Ok(()));
    assert_eq!(pool.execute("2"), Ok(()));
    let mut log = String::new();
    loop {
        match pool.receive(0) {
            Some(Action::Run(text)) => {
                log.push_str(text);
                pool.complete(0);
            }
            Some(Action::Exit) => panic!("no order to stop was sent"),
            None => break,
        }
    }
    assert_eq!(log, "12");
}

#[test]
fn shutdown_sends_one_order_to_stop_per_worker() {
    let mut pool = pool_of(3);
    assert_eq!(pool.execute(7), Ok(()));
    let plan = pool.shutdown();
    assert_eq!(plan, vec![0usize, 1, 2]);
    assert!(pool.is_closed());
    assert_eq!(pool.queued(), 4);
    assert_eq!(job_of(pool.receive(2)), Some(7));
    assert!(is_exit(&pool.receive(0)));
    assert!(is_exit(&pool.receive(1)));
    assert!(pool.receive(0).is_none());
    pool.complete(2);
    assert!(is_exit(&pool.receive(2)));
    assert_eq!(pool.queued(), 0);
    assert_eq!(states(&pool), vec![WorkerState::Terminated; 3]);
}

#[test]
fn after_shutdown_execute_fails_and_workers_end() {
    let mut pool = pool_of(2);
    assert_eq!(pool.execute(1), Ok(()));
    assert_eq!(pool.execute(2), Ok(()));
    assert_eq!(pool.execute(3), Ok(()));
    let plan = pool.shutdown();
    assert_eq!(plan, vec![0usize, 1]);
    assert_eq!(pool.execute(4), Err(SubmissionError));
    assert_eq!(pool.queued(), 5);
    let mut ran = Vec::new();
    let mut steps = 0;
    while states(&pool) != vec![WorkerState::Terminated; 2] {
        for worker in 0..2 {
            pool.complete(worker);
            if let Some(job) = job_of(pool.receive(worker)) {
                ran.push(job);
            }
        }
        steps += 1;
        assert!(steps <= 5);
    }
    assert_eq!(ran, vec![1, 2, 3]);
    assert_eq!(pool.queued(), 0);
    assert_eq!(pool.execute(5), Err(SubmissionError));
    assert_eq!(pool.queued(), 0);
    assert!(pool.receive(0).is_none());
    assert!(pool.receive(1).is_none());
}

#[test]
fn shutdown_twice_is_shutdown_once() {
    let mut pool = pool_of(2);
    assert_eq!(pool.execute(9), Ok(()));
    assert_eq!(pool.shutdown(), vec![0usize, 1]);
    let queued = pool.queued();
    let before = states(&pool);
    assert_eq!(pool.shutdown(), Vec::<usize>::new());
    assert!(pool.is_closed());
    assert_eq!(pool.queued(), queued);
    assert_eq!(states(&pool), before);
    assert_eq!(job_of(pool.receive(0)), Some(9));
    assert!(is_exit(&pool.receive(1)));
    assert_eq!(pool.shutdown(), Vec::<usize>::new());
    assert_eq!(pool.queued(), 1);
}

#[test]
fn a_running_job_is_not_cut_short_by_shutdown() {
    let mut pool = pool_of(1);
    assert_eq!(pool.execute(1), Ok(()));
    assert_eq!(job_of(pool.receive(0)), Some(1));
    assert_eq!(pool.shutdown(), vec![0usize]);
    assert_eq!(pool.state_of(0), Some(WorkerState::Executing));
    assert!(pool.receive(0).is_none());
    assert_eq!(pool.queued(), 1);
    pool.complete(0);
    assert!(is_exit(&pool.receive(0)));
    assert_eq!(pool.state_of(0), Some(WorkerState::Terminated));
}
