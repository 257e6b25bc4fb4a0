use worker_pool::error::SubmissionError;
use worker_pool::message::Message;
use worker_pool::queue::SharedQueue;

fn job(message: Option<Message<u8>>) -> u8 {
    match message {
        Some(Message::NewJob(job)) => job,
        Some(Message::Terminate) => panic!("an order to stop where a job was due"),
        None => panic!("nothing where a job was due"),
    }
}

#[test]
fn new_queue_is_open_and_empty() {
    let mut queue: SharedQueue<u8> = SharedQueue::new();
    assert!(!queue.is_closed());
    assert!(queue.is_empty());
    assert_eq!(queue.len(), 0);
    assert!(queue.receive().is_none());
}

#[test]
fn messages_leave_in_the_order_sent() {
    let mut queue: SharedQueue<u8> = SharedQueue::new();
    assert_eq!(queue.send(Message::NewJob(1)), Ok(()));
    assert_eq!(queue.send(Message::NewJob(2)), Ok(()));
    assert_eq!(queue.send(Message::Terminate), Ok(()));
    assert_eq!(queue.send(Message::NewJob(3)), Ok(()));
    assert_eq!(queue.len(), 4);
    assert!(!queue.is_empty());
    assert_eq!(job(queue.receive()), 1);
    assert_eq!(job(queue.receive()), 2);
    assert!(matches!(queue.receive(), Some(Message::Terminate)));
    assert_eq!(job(queue.receive()), 3);
    assert!(queue.receive().is_none());
    assert_eq!(queue.len(), 0);
}

#[test]
fn closed_queue_takes_nothing_in() {
    let mut queue: SharedQueue<u8> = SharedQueue::new();
    assert_eq!(queue.send(Message::NewJob(1)), Ok(()));
    queue.close();
    assert!(queue.is_closed());
    assert_eq!(queue.send(Message::NewJob(2)), Err(SubmissionError));
    assert_eq!(queue.send(Message::Terminate), Err(SubmissionError));
    assert_eq!(queue.len(), 1);
}

#[test]
fn closed_queue_still_hands_out_what_it_holds() {
    let mut queue: SharedQueue<u8> = SharedQueue::new();
    assert_eq!(queue.send(Message::NewJob(8)), Ok(()));
    assert_eq!(queue.send(Message::Terminate), Ok(()));
    queue.close();
    queue.close();
    assert_eq!(job(queue.receive()), 8);
    assert!(matches!(queue.receive(), Some(Message::Terminate)));
    assert!(queue.receive().is_none());
    assert!(queue.is_closed());
}
