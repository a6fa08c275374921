use multipool::metrics::{AtomicMetricsCollector, ThreadPoolMetrics};
use multipool::pool::task::{Priority, PriorityTask};
use multipool::priority_stealer::{
    fetch_priority_task, prioritized_work_stealing_queues, PriorityInjector, PriorityStealer,
    PriorityWorker, Steal,
};
use multipool::stealer::work_stealing_queues;

fn task(id: u64, priority: usize) -> PriorityTask {
    PriorityTask::new(id, Priority(priority))
}

fn drain(w: &mut PriorityWorker<PriorityTask>) -> Vec<u64> {
    let mut out = Vec::new();
    while let Some(t) = w.pop() {
        out.push(t.task);
    }
    out
}

#[test]
fn steal_batch_from_empty_injector_is_empty() {
    let mut inj: PriorityInjector<PriorityTask> = PriorityInjector::new();
    let mut w = PriorityWorker::new();
    assert!(matches!(inj.steal_batch(&mut w), Steal::Empty));
    assert!(w.pop().is_none());
}

#[test]
fn steal_batch_takes_highest_priority_half_rounded_up() {
    let mut inj = PriorityInjector::new();
    inj.push(task(1, 5));
    inj.push(task(2, 1));
    inj.push(task(3, 9));
    inj.push(task(4, 1));
    inj.push(task(5, 3));
    let mut w = PriorityWorker::new();
    assert!(matches!(inj.steal_batch(&mut w), Steal::Success(())));
    // Three of five move, in priority order.
    assert_eq!(drain(&mut w), vec![2, 4, 5]);
    // The two others stay.
    let mut w2 = PriorityWorker::new();
    assert!(matches!(inj.steal_batch(&mut w2), Steal::Success(())));
    assert_eq!(drain(&mut w2), vec![1]);
    let mut w3 = PriorityWorker::new();
    assert!(matches!(inj.steal_batch(&mut w3), Steal::Success(())));
    assert_eq!(drain(&mut w3), vec![3]);
    assert!(matches!(inj.steal_batch(&mut w3), Steal::Empty));
}

#[test]
fn steal_batch_keeps_every_task() {
    let mut inj = PriorityInjector::new();
    for i in 0..4u64 {
        inj.push(task(i, (i % 2) as usize));
    }
    let mut w = PriorityWorker::new();
    w.push(task(100, 0));
    assert!(matches!(inj.steal_batch(&mut w), Steal::Success(())));
    let mut seen = drain(&mut w);
    let mut rest = PriorityWorker::new();
    while let Steal::Success(()) = inj.steal_batch(&mut rest) {}
    seen.extend(drain(&mut rest));
    seen.sort();
    assert_eq!(seen, vec![0, 1, 2, 3, 100]);
}

#[test]
fn stealer_takes_highest_priority_from_its_worker() {
    let (_inj, stealers, mut workers) =
        prioritized_work_stealing_queues::<PriorityTask, AtomicMetricsCollector>(2, &mut None);
    workers[1].push(task(1, 7));
    workers[1].push(task(2, 2));
    assert_eq!(stealers[1].victim, 1);
    match stealers[1].steal(&mut workers[1]) {
        Steal::Success(t) => assert_eq!(t.task, 2),
        _ => panic!("expected a task"),
    }
    assert!(matches!(stealers[0].steal(&mut workers[0]), Steal::Empty));
    assert_eq!(drain(&mut workers[1]), vec![1]);
    assert!(matches!(stealers[1].steal(&mut workers[1]), Steal::Empty));
}

#[test]
fn worker_stealer_names_the_worker() {
    let w: PriorityWorker<PriorityTask> = PriorityWorker::new();
    let s: PriorityStealer = w.stealer();
    assert_eq!(s.victim, 0);
}

#[test]
fn prioritized_queues_count_started_workers() {
    let mut collector = Some(AtomicMetricsCollector::new(ThreadPoolMetrics::new()));
    let (_inj, stealers, workers) =
        prioritized_work_stealing_queues::<PriorityTask, _>(3, &mut collector);
    assert_eq!(stealers.len(), 3);
    assert_eq!(workers.len(), 3);
    for (i, s) in stealers.iter().enumerate() {
        assert_eq!(s.victim, i);
    }
    assert_eq!(collector.unwrap().metrics.active_threads, 3);
}

#[test]
fn fetch_priority_task_prefers_own_queue_then_batch_then_stealing() {
    let (mut inj, stealers, mut workers) =
        prioritized_work_stealing_queues::<PriorityTask, AtomicMetricsCollector>(3, &mut None);
    workers[0].push(task(10, 5));
    inj.push(task(20, 1));
    inj.push(task(21, 2));
    inj.push(task(22, 0));
    workers[2].push(task(30, 4));

    // Own queue first, even though the injector holds higher priorities.
    let t = fetch_priority_task(&mut inj, &mut workers, &stealers, 0).unwrap();
    assert_eq!(t.task, 10);
    // Own queue empty: a batch of two (22 then 20) moves in, 22 comes out.
    let t = fetch_priority_task(&mut inj, &mut workers, &stealers, 0).unwrap();
    assert_eq!(t.task, 22);
    let t = fetch_priority_task(&mut inj, &mut workers, &stealers, 0).unwrap();
    assert_eq!(t.task, 20);
    // Worker 1 gets the last injector task.
    let t = fetch_priority_task(&mut inj, &mut workers, &stealers, 1).unwrap();
    assert_eq!(t.task, 21);
    // Nothing left but worker 2's task, which worker 1 steals.
    let t = fetch_priority_task(&mut inj, &mut workers, &stealers, 1).unwrap();
    assert_eq!(t.task, 30);
    assert!(fetch_priority_task(&mut inj, &mut workers, &stealers, 1).is_none());
}

#[test]
fn work_stealing_queues_fetch_in_order() {
    let mut collector = Some(AtomicMetricsCollector::new(ThreadPoolMetrics::new()));
    let mut q = work_stealing_queues(2, &mut collector);
    assert_eq!(collector.unwrap().metrics.active_threads, 2);
    assert_eq!(q.num_workers(), 2);
    assert_eq!(q.fetch_task(0), None);
    q.push(1);
    q.push(2);
    q.push(3);
    let mut got = Vec::new();
    while let Some(t) = q.fetch_task(0) {
        got.push(t);
    }
    // First-in first-out through the injector and the worker's queue.
    assert_eq!(got, vec![1, 2, 3]);
}

#[test]
fn work_stealing_queues_steal_from_other_workers() {
    let mut q = work_stealing_queues::<AtomicMetricsCollector>(2, &mut None);
    for t in 1..=4u64 {
        q.push(t);
    }
    // Worker 0 takes a batch and runs its first task.
    let first = q.fetch_task(0).unwrap();
    assert_eq!(first, 1);
    let mut got = vec![first];
    // Worker 1 drains the rest, stealing what worker 0 holds.
    while let Some(t) = q.fetch_task(1) {
        got.push(t);
    }
    got.sort();
    assert_eq!(got, vec![1, 2, 3, 4]);
    assert_eq!(q.fetch_task(0), None);
}

#[test]
fn queues_for_no_workers() {
    let mut collector = Some(AtomicMetricsCollector::new(ThreadPoolMetrics::new()));
    let (mut inj, stealers, workers) =
        prioritized_work_stealing_queues::<PriorityTask, _>(0, &mut collector);
    assert!(stealers.is_empty() && workers.is_empty());
    inj.push(task(1, 1));
    let q = work_stealing_queues(0, &mut collector);
    assert_eq!(q.num_workers(), 0);
    assert_eq!(collector.unwrap().metrics.active_threads, 0);
}

#[test]
fn stealer_takes_from_its_own_worker() {
    let mut workers: Vec<PriorityWorker<PriorityTask>> = vec![PriorityWorker::new(), PriorityWorker::new()];
    let s = workers[1].stealer();
    workers[1].push(task(42, 3));
    match s.steal(&mut workers[1]) {
        Steal::Success(t) => assert_eq!(t.task, 42),
        _ => panic!("expected the pushed task"),
    }
    assert!(workers[1].pop().is_none());
    assert!(matches!(s.steal(&mut workers[1]), Steal::Empty));
}

#[test]
fn fetch_after_batch_for_each_outcome() {
    let mut q = work_stealing_queues::<AtomicMetricsCollector>(3, &mut None);
    q.push(5);
    q.push(6);
    // A successful batch of one into worker 0, which then takes it.
    assert_eq!(q.fetch_task(0), Some(5));
    // The injector still holds 6; on Retry or Empty the worker steals instead.
    assert_eq!(q.fetch_after_batch(1, Steal::Retry), None);
    assert_eq!(q.fetch_after_batch(1, Steal::Empty), None);
    // Success with an empty own queue: steal from the workers in order.
    assert_eq!(q.fetch_after_batch(2, Steal::Success(())), None);
    assert_eq!(q.fetch_task(2), Some(6));
    assert_eq!(q.fetch_task(2), None);
}

#[test]
fn work_stealing_queues_tell_collector_once_per_worker() {
    let mut collector = Some(AtomicMetricsCollector::new(ThreadPoolMetrics::new()));
    let _q = work_stealing_queues(3, &mut collector);
    let m = collector.unwrap().metrics;
    assert_eq!(
        (m.active_threads, m.queued_tasks, m.running_tasks, m.completed_tasks),
        (3, 0, 0, 0)
    );
    let mut none: Option<AtomicMetricsCollector> = None;
    let _q = work_stealing_queues(3, &mut none);
    assert!(none.is_none());
}

#[test]
fn queue_lengths_are_visible() {
    let mut inj = PriorityInjector::new();
    inj.push(task(1, 1));
    inj.push(task(2, 2));
    inj.push(task(3, 3));
    assert_eq!(inj.len(), 3);
    let mut w = PriorityWorker::new();
    assert!(matches!(inj.steal_batch(&mut w), Steal::Success(())));
    assert_eq!((inj.len(), w.len()), (1, 2));
}

#[test]
fn prioritized_queues_leave_other_counters_alone() {
    let mut collector = Some(AtomicMetricsCollector::new(ThreadPoolMetrics::new()));
    let _q = prioritized_work_stealing_queues::<PriorityTask, _>(3, &mut collector);
    let m = collector.unwrap().metrics;
    assert_eq!(
        (m.active_threads, m.queued_tasks, m.running_tasks, m.completed_tasks),
        (3, 0, 0, 0)
    );
}
