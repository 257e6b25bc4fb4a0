//! The values that travel through the shared queue.

use vstd::prelude::*;

verus! {

/// What the pool hands to its workers: a job to run, or the order to stop.
///
/// A job is opaque to the pool. It is owned by whoever holds the message, so
/// it can be handed on once and run once.
#[derive(Debug)]
pub enum Message<J> {
    /// A unit of work.
    NewJob(J),
    /// Tells exactly one worker to leave its loop for good.
    Terminate,
}

/// The jobs among `messages`, in the order in which they stand there.
pub open spec fn jobs_of<J>(messages: Seq<Message<J>>) -> Seq<J>
    decreases messages.len(),
{
    if messages.len() == 0 {
        Seq::empty()
    } else {
        match messages.last() {
            Message::NewJob(job) => jobs_of(messages.drop_last()).push(job),
            Message::Terminate => jobs_of(messages.drop_last()),
        }
    }
}

/// `count` orders to stop, one after the other.
pub open spec fn terminations<J>(count: nat) -> Seq<Message<J>> {
    Seq::new(count, |i: int| Message::Terminate)
}

/// A message sent last adds its job, if it has one, after the jobs already there.
pub proof fn lemma_jobs_of_push<J>(messages: Seq<Message<J>>, message: Message<J>)
    ensures
        jobs_of(messages.push(message)) == match message {
            Message::NewJob(job) => jobs_of(messages).push(job),
            Message::Terminate => jobs_of(messages),
        },
{
    assert(messages.push(message).drop_last() =~= messages);
}

/// The message taken first takes its job, if it has one, from the front of the jobs.
pub proof fn lemma_jobs_of_drop_first<J>(messages: Seq<Message<J>>)
    requires
        messages.len() > 0,
    ensures
        jobs_of(messages) == match messages.first() {
            Message::NewJob(job) => seq![job] + jobs_of(messages.drop_first()),
            Message::Terminate => jobs_of(messages.drop_first()),
        },
    decreases messages.len(),
{
    if messages.len() == 1 {
        assert(messages.drop_first() =~= Seq::<Message<J>>::empty());
        assert(messages.drop_last() =~= Seq::<Message<J>>::empty());
        match messages.first() {
            Message::NewJob(job) => {
                assert(jobs_of(messages) =~= seq![job] + jobs_of(messages.drop_first()));
            },
            Message::Terminate => {},
        }
    } else {
        lemma_jobs_of_drop_first(messages.drop_last());
        assert(messages.drop_last().drop_first() =~= messages.drop_first().drop_last());
        assert(messages.drop_last().first() == messages.first());
        assert(messages.drop_first().last() == messages.last());
        match (messages.first(), messages.last()) {
            (Message::NewJob(first), Message::NewJob(last)) => {
                assert(jobs_of(messages) =~= seq![first] + jobs_of(messages.drop_first()));
            },
            _ => {},
        }
    }
}

/// Orders to stop hold no job.
pub proof fn lemma_jobs_of_terminations<J>(messages: Seq<Message<J>>, count: nat)
    ensures
        jobs_of(messages + terminations::<J>(count)) == jobs_of(messages),
    decreases count,
{
    if count == 0 {
        assert(messages + terminations::<J>(count) =~= messages);
    } else {
        let shorter = messages + terminations::<J>((count - 1) as nat);
        lemma_jobs_of_terminations(messages, (count - 1) as nat);
        assert(messages + terminations::<J>(count) =~= shorter.push(Message::Terminate));
        lemma_jobs_of_push(shorter, Message::Terminate);
    }
}

} // verus!
