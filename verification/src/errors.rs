//! Error types for the thread pool.
//!
//! Errors that may occur while operating the pool, such as submitting a task
//! to a pool that was shut down, or a task that failed.

use vstd::prelude::*;

verus! {

/// An error that can occur in the thread pool.
#[derive(Debug)]
pub enum PoolError {
    /// The thread pool has been shut down, and no new tasks can be accepted.
    PoolShutdown,
    /// A task panicked or failed to join.
    JoinError,
}

impl PoolError {
    /// The human-readable description of the error.
    pub fn to_string(&self) -> (s: String)
        ensures
            self is PoolShutdown ==> s@ == "Thread pool is shut down"@,
            self is JoinError ==> s@ == "Task panicked or failed to join"@,
    {
        match self {
            PoolError::PoolShutdown => String::from_str("Thread pool is shut down"),
            PoolError::JoinError => String::from_str("Task panicked or failed to join"),
        }
    }
}

} // verus!
