//! A worker pool of fixed size with a cooperative shutdown.
//!
//! Jobs are submitted to a [`ThreadPool`], wait in a first-in, first-out
//! [`SharedQueue`], and are handed to the pool's workers, each job to one
//! worker. Shutdown queues one order to stop for each worker behind the jobs
//! that wait, so that every job submitted before it is still run and every
//! worker then leaves its loop.
//!
//! The pool is a state machine. It decides who gets which message, when a
//! job is refused and whom shutdown waits for; it starts no thread and runs no
//! job. A program puts the pool behind a lock, lets each of its threads ask
//! the pool for the next step, and runs the jobs with the lock released.
//!
//! - [`pool`]: the pool and its operations.
//! - [`model`]: the pool as plain values, over which the contracts are stated.
//! - [`laws`]: what holds of every pool, proved over the model.
//! - [`queue`], [`worker`], [`message`], [`error`]: the parts of a pool.
//! - [`http`]: the response that answers a request, as a function of bytes.

pub mod error;
pub mod http;
pub mod laws;
pub mod message;
pub mod model;
pub mod pool;
pub mod queue;
pub mod worker;

pub use crate::error::{PoolCreationError, SubmissionError};
pub use crate::message::Message;
pub use crate::pool::ThreadPool;
pub use crate::queue::SharedQueue;
pub use crate::worker::{Action, Worker, WorkerState};
