//! The failures that the pool reports to its caller.

use vstd::prelude::*;

verus! {

/// A pool was asked for with no workers.
#[derive(Clone, Copy, Debug, PartialEq, Eq, Structural)]
pub struct PoolCreationError;

/// A job was submitted to a queue that teardown had already closed.
#[derive(Clone, Copy, Debug, PartialEq, Eq, Structural)]
pub struct SubmissionError;

} // verus!
