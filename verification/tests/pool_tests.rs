use multipool::errors::PoolError;
use multipool::metrics::{AtomicMetricsCollector, MetricsCollector, ThreadPoolMetrics};
use multipool::pool::modes::{
    GlobalQueueMode, PriorityGlobalQueueMode, PriorityWorkStealingMode, TaskFetchMode,
    WorkStealingMode,
};
use multipool::pool::worker::{next_worker_action, WorkerAction};
use multipool::ThreadPoolBuilder;

#[test]
fn builder_defaults_to_four_threads_without_metrics() {
    let b = ThreadPoolBuilder::new();
    assert_eq!(b.thread_count(), 4);
    assert!(b.into_metrics_collector().is_none());
}

#[test]
fn builder_keeps_settings_across_states() {
    let b = ThreadPoolBuilder::new()
        .num_threads(8)
        .with_metrics_collector(AtomicMetricsCollector::new(ThreadPoolMetrics::new()))
        .set_work_stealing()
        .enable_priority();
    assert_eq!(b.thread_count(), 8);
    assert!(b.into_metrics_collector().is_some());
    let b = ThreadPoolBuilder::new().enable_priority().num_threads(2);
    assert_eq!(b.thread_count(), 2);
    let b = ThreadPoolBuilder::new().num_threads(3).set_work_stealing();
    assert_eq!(b.thread_count(), 3);
}

#[test]
fn modes_have_their_names() {
    assert_eq!(GlobalQueueMode.mode(), "GlobalQueue");
    assert_eq!(WorkStealingMode.mode(), "WorkStealing");
    assert_eq!(PriorityGlobalQueueMode.mode(), "PriorityGlobalQueue");
    assert_eq!(PriorityWorkStealingMode.mode(), "PriorityWorkStealing");
}

#[test]
fn pool_errors_describe_themselves() {
    assert_eq!(PoolError::PoolShutdown.to_string(), "Thread pool is shut down");
    assert_eq!(PoolError::JoinError.to_string(), "Task panicked or failed to join");
}

#[test]
fn metrics_start_at_zero() {
    let m = ThreadPoolMetrics::new();
    assert_eq!(
        (m.queued_tasks, m.running_tasks, m.completed_tasks, m.active_threads),
        (0, 0, 0, 0)
    );
}

#[test]
fn metrics_follow_a_task_and_a_worker() {
    let mut c = AtomicMetricsCollector::new(ThreadPoolMetrics::new());
    c.on_worker_started();
    c.on_task_submitted();
    c.on_task_submitted();
    assert_eq!(c.metrics.queued_tasks, 2);
    c.on_task_started();
    assert_eq!((c.metrics.queued_tasks, c.metrics.running_tasks), (1, 1));
    c.on_task_completed();
    assert_eq!(
        (c.metrics.queued_tasks, c.metrics.running_tasks, c.metrics.completed_tasks),
        (1, 0, 1)
    );
    assert_eq!(c.metrics.active_threads, 1);
    c.on_worker_stopped();
    assert_eq!(c.metrics.active_threads, 0);
}

#[test]
fn metrics_wrap_like_atomics() {
    let mut c = AtomicMetricsCollector::new(ThreadPoolMetrics::new());
    c.on_task_started();
    assert_eq!(c.metrics.queued_tasks, usize::MAX);
    assert_eq!(c.metrics.running_tasks, 1);
    c.on_worker_stopped();
    assert_eq!(c.metrics.active_threads, usize::MAX);
    c.on_worker_started();
    assert_eq!(c.metrics.active_threads, 0);
}

#[test]
fn task_lifecycle_restores_queued_and_running() {
    let mut c = AtomicMetricsCollector::new(ThreadPoolMetrics {
        queued_tasks: 5,
        running_tasks: 2,
        completed_tasks: 40,
        active_threads: 4,
    });
    c.on_task_submitted();
    c.on_task_started();
    c.on_task_completed();
    assert_eq!(
        (c.metrics.queued_tasks, c.metrics.running_tasks, c.metrics.completed_tasks, c.metrics.active_threads),
        (5, 2, 41, 4)
    );
}

#[test]
fn worker_runs_yields_and_stops() {
    assert!(matches!(next_worker_action(true, Some(3)), WorkerAction::Run(3)));
    assert!(matches!(next_worker_action(true, None), WorkerAction::Yield));
    assert!(matches!(next_worker_action(false, None), WorkerAction::Stop));
    assert!(matches!(next_worker_action(false, Some(3)), WorkerAction::Stop));
}
