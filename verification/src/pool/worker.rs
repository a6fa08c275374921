//! The decisions of a worker thread's loop.
//!
//! A worker repeats: while the pool is running, fetch a task; run it if there
//! is one (telling the metrics collector when it starts and completes), and
//! otherwise yield its time slice; once the pool stops running, stop (telling
//! the collector that the worker stopped).

use vstd::prelude::*;

use crate::pool::task::TaskId;

verus! {

/// What a worker thread does next.
pub enum WorkerAction {
    /// Run the given task; the collector hears of its start and of its completion.
    Run(TaskId),
    /// No task was found: yield the time slice and look again.
    Yield,
    /// The pool is shut down: call `on_worker_stopped` and leave the loop.
    Stop,
}

/// The next action of a worker, given whether the pool is still running and
/// what the worker's fetch found (a worker only fetches while the pool runs).
pub fn next_worker_action(running: bool, fetched: Option<TaskId>) -> (a: WorkerAction)
    ensures
        !running ==> a is Stop,
        running && fetched is None ==> a is Yield,
        running && fetched is Some ==> a == WorkerAction::Run(fetched->0),
{
    if !running {
        WorkerAction::Stop
    } else {
        match fetched {
            Some(task) => WorkerAction::Run(task),
            None => WorkerAction::Yield,
        }
    }
}

} // verus!
