use multipool::pool::task::{IPriority, Priority, PriorityTask};
use multipool::queue::{PriorityQueue, TaskQueue};

fn task(id: u64, priority: usize) -> PriorityTask {
    PriorityTask::new(id, Priority(priority))
}

#[test]
fn task_queue_is_first_in_first_out() {
    let mut q = TaskQueue::new();
    assert_eq!(q.pop(), None);
    q.push(7);
    q.push(3);
    q.push(9);
    assert_eq!(q.pop(), Some(7));
    q.push(1);
    assert_eq!(q.pop(), Some(3));
    assert_eq!(q.pop(), Some(9));
    assert_eq!(q.pop(), Some(1));
    assert_eq!(q.pop(), None);
}

#[test]
fn priority_queue_lower_value_comes_out_first() {
    let mut q = PriorityQueue::new();
    q.push(task(1, 10));
    q.push(task(2, 1));
    q.push(task(3, 5));
    assert_eq!(q.len(), 3);
    assert_eq!(q.pop().map(|t| t.task), Some(2));
    assert_eq!(q.pop().map(|t| t.task), Some(3));
    assert_eq!(q.pop().map(|t| t.task), Some(1));
    assert_eq!(q.len(), 0);
    assert!(q.pop().is_none());
}

#[test]
fn priority_queue_equal_priorities_in_push_order() {
    let mut q = PriorityQueue::new();
    q.push(task(1, 4));
    q.push(task(2, 2));
    q.push(task(3, 4));
    q.push(task(4, 2));
    q.push(task(5, 4));
    let order: Vec<u64> = (0..5).map(|_| q.pop().unwrap().task).collect();
    assert_eq!(order, vec![2, 4, 1, 3, 5]);
}

#[test]
fn priority_queue_pop_between_pushes() {
    let mut q = PriorityQueue::new();
    q.push(task(1, 3));
    q.push(task(2, 3));
    assert_eq!(q.pop().map(|t| t.task), Some(1));
    q.push(task(3, 0));
    q.push(task(4, 3));
    assert_eq!(q.pop().map(|t| t.task), Some(3));
    assert_eq!(q.pop().map(|t| t.task), Some(2));
    assert_eq!(q.pop().map(|t| t.task), Some(4));
    assert!(q.pop().is_none());
}

#[test]
fn priority_queue_empty_on_creation() {
    let mut q: PriorityQueue<PriorityTask> = PriorityQueue::new();
    assert_eq!(q.len(), 0);
    assert!(q.pop().is_none());
}

#[test]
fn priority_task_carries_its_priority() {
    let t = task(11, 6);
    assert_eq!(t.task, 11);
    assert_eq!(t.priority(), Priority(6));
    assert_eq!(IPriority::priority(&t), Priority(6));
}

#[test]
fn priority_tasks_compare_by_priority() {
    assert!(task(1, 3) == task(2, 3));
    assert!(task(1, 3) != task(1, 4));
    assert!(task(1, 2) < task(2, 3));
    assert!(task(1, 9) > task(2, 3));
    assert_eq!(task(1, 3).partial_cmp(&task(5, 3)), Some(std::cmp::Ordering::Equal));
}
