//! Tasks as the scheduler sees them: an identifier of the work to run and
//! its priority.
//!
//! The closures themselves are owned by the executor that runs them; the
//! queues of this crate move their identifiers around.

use core::cmp::Ordering;

use vstd::prelude::*;
use vstd::std_specs::cmp::{PartialEqSpec, PartialEqSpecImpl, PartialOrdSpec, PartialOrdSpecImpl};

verus! {

/// Identifies a unit of work handed to the pool.
pub type TaskId = u64;

/// The priority of a task. Lower values indicate higher priority.
#[derive(Debug, Clone, Copy, PartialEq, Eq, PartialOrd, Ord, Structural)]
pub struct Priority(pub usize);

/// Something that carries a priority.
///
/// The queues of this crate order their items by what `priority` returns.
pub trait IPriority {
    /// The priority of the value, as a mathematical function of it.
    spec fn spec_priority(&self) -> Priority;

    /// Retrieves the priority of the value.
    fn priority(&self) -> (p: Priority)
        ensures
            p == self.spec_priority(),
    ;
}

/// A task together with its priority.
pub struct PriorityTask {
    /// The work to run.
    pub task: TaskId,
    priority: Priority,
}

impl PriorityTask {
    /// The priority of the task.
    pub closed spec fn view_priority(&self) -> Priority {
        self.priority
    }

    /// The identifier of the work to run.
    pub closed spec fn view_task(&self) -> TaskId {
        self.task
    }

    /// Creates a new `PriorityTask` for the work `task`, with the given priority.
    pub fn new(task: TaskId, priority: Priority) -> (r: Self)
        ensures
            r.view_task() == task,
            r.view_priority() == priority,
    {
        Self { task, priority }
    }

    /// Returns the priority of the task.
    pub fn priority(&self) -> (p: Priority)
        ensures
            p == self.view_priority(),
    {
        self.priority
    }
}

impl IPriority for PriorityTask {
    open spec fn spec_priority(&self) -> Priority {
        self.view_priority()
    }

    fn priority(&self) -> (p: Priority) {
        self.priority
    }
}

/// Two tasks compare equal when their priorities are equal.
impl PartialEq for PriorityTask {
    fn eq(&self, other: &Self) -> (r: bool) {
        self.priority.0 == other.priority.0
    }
}

impl PartialEqSpecImpl for PriorityTask {
    open spec fn obeys_eq_spec() -> bool {
        true
    }

    open spec fn eq_spec(&self, other: &PriorityTask) -> bool {
        self.view_priority() == other.view_priority()
    }
}

impl Eq for PriorityTask {}

/// Tasks are ordered by their priorities.
impl PartialOrd for PriorityTask {
    fn partial_cmp(&self, other: &Self) -> (r: Option<Ordering>) {
        if self.priority.0 < other.priority.0 {
            Some(Ordering::Less)
        } else if self.priority.0 == other.priority.0 {
            Some(Ordering::Equal)
        } else {
            Some(Ordering::Greater)
        }
    }
}

impl PartialOrdSpecImpl for PriorityTask {
    open spec fn obeys_partial_cmp_spec() -> bool {
        true
    }

    open spec fn partial_cmp_spec(&self, other: &PriorityTask) -> Option<Ordering> {
        if self.view_priority().0 < other.view_priority().0 {
            Some(Ordering::Less)
        } else if self.view_priority().0 == other.view_priority().0 {
            Some(Ordering::Equal)
        } else {
            Some(Ordering::Greater)
        }
    }
}

/// A queue orders a task by the priority it was created with.
pub proof fn lemma_task_ordered_by_its_priority(task: TaskId, priority: Priority, t: PriorityTask)
    requires
        t.view_task() == task,
        t.view_priority() == priority,
    ensures
        t.spec_priority() == priority,
{
}

/// Two tasks are equal exactly when their priorities are equal (so equality
/// is symmetric), and they are ordered as their priority values are.
pub proof fn lemma_tasks_compare_by_priority(a: PriorityTask, b: PriorityTask)
    ensures
        PartialEqSpec::eq_spec(&a, &b) <==> a.view_priority() == b.view_priority(),
        PartialEqSpec::eq_spec(&a, &b) <==> PartialEqSpec::eq_spec(&b, &a),
        PartialOrdSpec::partial_cmp_spec(&a, &b) == Some(Ordering::Less) <==> a.view_priority().0 < b.view_priority().0,
        PartialOrdSpec::partial_cmp_spec(&a, &b) == Some(Ordering::Equal) <==> a.view_priority().0 == b.view_priority().0,
        PartialOrdSpec::partial_cmp_spec(&a, &b) == Some(Ordering::Greater) <==> a.view_priority().0 > b.view_priority().0,
{
}

} // verus!
