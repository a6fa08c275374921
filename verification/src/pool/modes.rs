//! Task fetch modes for the thread pool.
//!
//! A mode names the strategy by which workers fetch tasks, and whether tasks
//! carry priorities.

use vstd::prelude::*;

verus! {

/// A task fetching mode.
pub trait TaskFetchMode {
    /// Returns the name of the task fetching mode.
    fn mode(&self) -> &'static str;
}

/// A marker trait for task fetching modes that do not support priorities.
pub trait NonPriorityTaskFetchMode: TaskFetchMode {}

/// A marker trait for task fetching modes that support task priorities.
pub trait PriorityTaskFetchMode: TaskFetchMode {}

/// All tasks go into a single global queue, from which the workers fetch
/// them in submission order.
pub struct GlobalQueueMode;

impl TaskFetchMode for GlobalQueueMode {
    fn mode(&self) -> (r: &'static str)
        ensures
            r@ == "GlobalQueue"@,
    {
        "GlobalQueue"
    }
}

impl NonPriorityTaskFetchMode for GlobalQueueMode {}

/// Each worker has its own local queue and steals from the others when it
/// runs dry; priorities are not considered.
pub struct WorkStealingMode;

impl TaskFetchMode for WorkStealingMode {
    fn mode(&self) -> (r: &'static str)
        ensures
            r@ == "WorkStealing"@,
    {
        "WorkStealing"
    }
}

impl NonPriorityTaskFetchMode for WorkStealingMode {}

/// All tasks go into a single global queue ordered by priority.
pub struct PriorityGlobalQueueMode;

impl TaskFetchMode for PriorityGlobalQueueMode {
    fn mode(&self) -> (r: &'static str)
        ensures
            r@ == "PriorityGlobalQueue"@,
    {
        "PriorityGlobalQueue"
    }
}

impl PriorityTaskFetchMode for PriorityGlobalQueueMode {}

/// Each worker has its own local priority queue and steals from the others
/// when it runs dry.
pub struct PriorityWorkStealingMode;

impl TaskFetchMode for PriorityWorkStealingMode {
    fn mode(&self) -> (r: &'static str)
        ensures
            r@ == "PriorityWorkStealing"@,
    {
        "PriorityWorkStealing"
    }
}

impl PriorityTaskFetchMode for PriorityWorkStealingMode {}

} // verus!
