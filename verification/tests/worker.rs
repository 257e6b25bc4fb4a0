use worker_pool::message::Message;
use worker_pool::worker::{Action, Worker, WorkerState};

#[test]
fn new_worker_is_idle() {
    let worker = Worker::new(3);
    assert_eq!(worker.id(), 3);
    assert_eq!(worker.state(), WorkerState::Idle);
}

#[test]
fn job_sends_an_idle_worker_off_to_run_it() {
    let mut worker = Worker::new(0);
    match worker.on_message(Message::NewJob("job")) {
        Action::Run(job) => assert_eq!(job, "job"),
        Action::Exit => panic!("a job ended the worker"),
    }
    assert_eq!(worker.state(), WorkerState::Executing);
    assert_eq!(worker.id(), 0);
}

#[test]
fn returned_job_lets_the_worker_wait_again() {
    let mut worker = Worker::new(1);
    assert!(matches!(worker.on_message(Message::NewJob(5u8)), Action::Run(5)));
    worker.on_job_done();
    assert_eq!(worker.state(), WorkerState::Idle);
    assert!(matches!(worker.on_message(Message::NewJob(6u8)), Action::Run(6)));
    assert_eq!(worker.state(), WorkerState::Executing);
}

#[test]
fn order_to_stop_ends_an_idle_worker() {
    let mut worker = Worker::new(2);
    assert!(matches!(worker.on_message(Message::<u8>::Terminate), Action::Exit));
    assert_eq!(worker.state(), WorkerState::Terminated);
    assert_eq!(worker.id(), 2);
}

#[test]
fn job_done_changes_only_a_running_worker() {
    let mut idle = Worker::new(0);
    idle.on_job_done();
    assert_eq!(idle.state(), WorkerState::Idle);
    let mut ended = Worker::new(1);
    assert!(matches!(ended.on_message(Message::<u8>::Terminate), Action::Exit));
    ended.on_job_done();
    assert_eq!(ended.state(), WorkerState::Terminated);
}
