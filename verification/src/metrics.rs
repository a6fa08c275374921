//! Metrics collection for the thread pool.
//!
//! This module defines the `MetricsCollector` trait, whose hooks the pool calls
//! at each event of a task's or a worker's life, and a default collector that
//! keeps four counters.

use vstd::prelude::*;

verus! {

/// An event of the pool that a metrics collector is told of.
pub enum MetricsEvent {
    /// A task was submitted.
    TaskSubmitted,
    /// A task started executing.
    TaskStarted,
    /// A task completed.
    TaskCompleted,
    /// A worker thread started.
    WorkerStarted,
    /// A worker thread stopped.
    WorkerStopped,
}

/// Hooks that the thread pool calls at key events.
///
/// Implementations decide what to record. One that keeps a faithful record
/// of the hooks called on it says so with `records_events`; then `events` is
/// that record, and each hook appends its event to it and changes nothing
/// else in it. One that also counts the events in a `ThreadPoolMetrics` says
/// so with `counts_events`; then no hook changes its starting counters, and
/// each hook keeps its counters equal to the starting counters moved by the
/// recorded events (`counts_follow_events`).
pub trait MetricsCollector {
    /// The events this collector was told of, oldest first (meaningful where
    /// `records_events` holds; a collector keeps no such record unless it
    /// says so).
    open spec fn events(&self) -> Seq<MetricsEvent> {
        Seq::empty()
    }

    /// Whether `events` is a faithful record of the hooks called.
    open spec fn records_events() -> bool {
        false
    }

    /// The counters the collector shows (meaningful where `counts_events`
    /// holds).
    open spec fn counters(&self) -> ThreadPoolMetrics {
        zero_metrics()
    }

    /// The counters the collector started from (meaningful where
    /// `counts_events` holds).
    open spec fn start_counters(&self) -> ThreadPoolMetrics {
        zero_metrics()
    }

    /// Whether the collector counts the events it records.
    open spec fn counts_events() -> bool {
        false
    }

    /// Called when a task is submitted to the thread pool.
    fn on_task_submitted(&mut self)
        ensures
            Self::records_events() ==> final(self).events() == old(self).events().push(
                MetricsEvent::TaskSubmitted,
            ),
            Self::counts_events() ==> final(self).start_counters() == old(self).start_counters(),
            Self::counts_events() && old(self).counters() == metrics_after(
                old(self).start_counters(),
                old(self).events(),
            ) ==> final(self).counters() == metrics_after(
                final(self).start_counters(),
                final(self).events(),
            ),
    ;

    /// Called when a task starts executing.
    fn on_task_started(&mut self)
        ensures
            Self::records_events() ==> final(self).events() == old(self).events().push(
                MetricsEvent::TaskStarted,
            ),
            Self::counts_events() ==> final(self).start_counters() == old(self).start_counters(),
            Self::counts_events() && old(self).counters() == metrics_after(
                old(self).start_counters(),
                old(self).events(),
            ) ==> final(self).counters() == metrics_after(
                final(self).start_counters(),
                final(self).events(),
            ),
    ;

    /// Called when a task completes execution.
    fn on_task_completed(&mut self)
        ensures
            Self::records_events() ==> final(self).events() == old(self).events().push(
                MetricsEvent::TaskCompleted,
            ),
            Self::counts_events() ==> final(self).start_counters() == old(self).start_counters(),
            Self::counts_events() && old(self).counters() == metrics_after(
                old(self).start_counters(),
                old(self).events(),
            ) ==> final(self).counters() == metrics_after(
                final(self).start_counters(),
                final(self).events(),
            ),
    ;

    /// Called when a worker thread starts.
    fn on_worker_started(&mut self)
        ensures
            Self::records_events() ==> final(self).events() == old(self).events().push(
                MetricsEvent::WorkerStarted,
            ),
            Self::counts_events() ==> final(self).start_counters() == old(self).start_counters(),
            Self::counts_events() && old(self).counters() == metrics_after(
                old(self).start_counters(),
                old(self).events(),
            ) ==> final(self).counters() == metrics_after(
                final(self).start_counters(),
                final(self).events(),
            ),
    ;

    /// Called when a worker thread stops.
    fn on_worker_stopped(&mut self)
        ensures
            Self::records_events() ==> final(self).events() == old(self).events().push(
                MetricsEvent::WorkerStopped,
            ),
            Self::counts_events() ==> final(self).start_counters() == old(self).start_counters(),
            Self::counts_events() && old(self).counters() == metrics_after(
                old(self).start_counters(),
                old(self).events(),
            ) ==> final(self).counters() == metrics_after(
                final(self).start_counters(),
                final(self).events(),
            ),
    ;
}

/// All counters at zero.
pub open spec fn zero_metrics() -> ThreadPoolMetrics {
    ThreadPoolMetrics { queued_tasks: 0, running_tasks: 0, completed_tasks: 0, active_threads: 0 }
}

/// The collector's counters are its starting counters moved by each event it
/// recorded, oldest first.
pub open spec fn counts_follow_events<C: MetricsCollector + ?Sized>(c: &C) -> bool {
    c.counters() == metrics_after(c.start_counters(), c.events())
}

/// `n` worker-started events.
pub open spec fn workers_started(n: nat) -> Seq<MetricsEvent> {
    Seq::new(n, |i: int| MetricsEvent::WorkerStarted)
}

/// A counter after one increment; like an atomic `fetch_add(1)`, it wraps
/// around at `usize::MAX`.
pub open spec fn incremented(x: usize) -> usize {
    if x == usize::MAX {
        0
    } else {
        (x + 1) as usize
    }
}

/// A counter after one decrement; like an atomic `fetch_sub(1)`, it wraps
/// around below zero.
pub open spec fn decremented(x: usize) -> usize {
    if x == 0 {
        usize::MAX
    } else {
        (x - 1) as usize
    }
}

/// The counters of the thread pool.
///
/// - `queued_tasks`: number of tasks currently waiting in a queue.
/// - `running_tasks`: number of tasks currently being executed.
/// - `completed_tasks`: total number of tasks that have completed.
/// - `active_threads`: number of worker threads currently active.
#[derive(Clone, Copy)]
pub struct ThreadPoolMetrics {
    /// Number of tasks currently queued for execution.
    pub queued_tasks: usize,
    /// Number of tasks currently being executed.
    pub running_tasks: usize,
    /// Total number of tasks that have been completed.
    pub completed_tasks: usize,
    /// Number of worker threads currently active.
    pub active_threads: usize,
}

impl ThreadPoolMetrics {
    /// Creates a new `ThreadPoolMetrics` with all counters at zero.
    pub fn new() -> (r: Self)
        ensures
            r.queued_tasks == 0,
            r.running_tasks == 0,
            r.completed_tasks == 0,
            r.active_threads == 0,
    {
        Self { queued_tasks: 0, running_tasks: 0, completed_tasks: 0, active_threads: 0 }
    }
}

fn increment(x: usize) -> (r: usize)
    ensures
        r == incremented(x),
{
    x.wrapping_add(1)
}

fn decrement(x: usize) -> (r: usize)
    ensures
        r == decremented(x),
{
    x.wrapping_sub(1)
}

/// The default `MetricsCollector`: it keeps the counters of a
/// `ThreadPoolMetrics`.
pub struct AtomicMetricsCollector {
    /// The counters.
    pub metrics: ThreadPoolMetrics,
    /// The counters it was made with.
    start: Ghost<ThreadPoolMetrics>,
    /// The events it was told of, oldest first.
    log: Ghost<Seq<MetricsEvent>>,
}

impl AtomicMetricsCollector {
    /// The counters.
    pub closed spec fn view_metrics(&self) -> ThreadPoolMetrics {
        self.metrics
    }

    /// The counters this collector was made with.
    pub closed spec fn start(&self) -> ThreadPoolMetrics {
        self.start@
    }

    /// Creates a new `AtomicMetricsCollector` that keeps the given counters.
    pub fn new(metrics: ThreadPoolMetrics) -> (r: Self)
        ensures
            r.view_metrics() == metrics,
            r.start() == metrics,
            r.events() == Seq::<MetricsEvent>::empty(),
            counts_follow_events(&r),
    {
        Self { metrics, start: Ghost(metrics), log: Ghost(Seq::empty()) }
    }
}

/// The counters after a task was submitted.
pub open spec fn after_task_submitted(m: ThreadPoolMetrics) -> ThreadPoolMetrics {
    ThreadPoolMetrics { queued_tasks: incremented(m.queued_tasks), ..m }
}

/// The counters after a task started executing.
pub open spec fn after_task_started(m: ThreadPoolMetrics) -> ThreadPoolMetrics {
    ThreadPoolMetrics {
        queued_tasks: decremented(m.queued_tasks),
        running_tasks: incremented(m.running_tasks),
        ..m
    }
}

/// The counters after a task completed.
pub open spec fn after_task_completed(m: ThreadPoolMetrics) -> ThreadPoolMetrics {
    ThreadPoolMetrics {
        running_tasks: decremented(m.running_tasks),
        completed_tasks: incremented(m.completed_tasks),
        ..m
    }
}

/// The counters after a worker thread started.
pub open spec fn after_worker_started(m: ThreadPoolMetrics) -> ThreadPoolMetrics {
    ThreadPoolMetrics { active_threads: incremented(m.active_threads), ..m }
}

/// The counters after a worker thread stopped.
pub open spec fn after_worker_stopped(m: ThreadPoolMetrics) -> ThreadPoolMetrics {
    ThreadPoolMetrics { active_threads: decremented(m.active_threads), ..m }
}

/// The counters after one event.
pub open spec fn after_event(m: ThreadPoolMetrics, e: MetricsEvent) -> ThreadPoolMetrics {
    match e {
        MetricsEvent::TaskSubmitted => after_task_submitted(m),
        MetricsEvent::TaskStarted => after_task_started(m),
        MetricsEvent::TaskCompleted => after_task_completed(m),
        MetricsEvent::WorkerStarted => after_worker_started(m),
        MetricsEvent::WorkerStopped => after_worker_stopped(m),
    }
}

/// The counters after a run of events, oldest first.
pub open spec fn metrics_after(m: ThreadPoolMetrics, es: Seq<MetricsEvent>) -> ThreadPoolMetrics
    decreases es.len(),
{
    if es.len() == 0 {
        m
    } else {
        after_event(metrics_after(m, es.drop_last()), es.last())
    }
}

impl MetricsCollector for AtomicMetricsCollector {
    closed spec fn events(&self) -> Seq<MetricsEvent> {
        self.log@
    }

    open spec fn records_events() -> bool {
        true
    }

    open spec fn counters(&self) -> ThreadPoolMetrics {
        self.view_metrics()
    }

    open spec fn start_counters(&self) -> ThreadPoolMetrics {
        self.start()
    }

    open spec fn counts_events() -> bool {
        true
    }

    /// Increments the count of queued tasks.
    fn on_task_submitted(&mut self)
        ensures
            final(self).view_metrics() == after_task_submitted(old(self).view_metrics()),
    {
        proof {
            self.log@ = self.log@.push(MetricsEvent::TaskSubmitted);
            assert(self.log@.drop_last() =~= old(self).log@);
        }
        self.metrics.queued_tasks = increment(self.metrics.queued_tasks);
    }

    /// Decrements the count of queued tasks and increments the count of
    /// running tasks.
    fn on_task_started(&mut self)
        ensures
            final(self).view_metrics() == after_task_started(old(self).view_metrics()),
    {
        proof {
            self.log@ = self.log@.push(MetricsEvent::TaskStarted);
            assert(self.log@.drop_last() =~= old(self).log@);
        }
        self.metrics.queued_tasks = decrement(self.metrics.queued_tasks);
        self.metrics.running_tasks = increment(self.metrics.running_tasks);
    }

    /// Decrements the count of running tasks and increments the count of
    /// completed tasks.
    fn on_task_completed(&mut self)
        ensures
            final(self).view_metrics() == after_task_completed(old(self).view_metrics()),
    {
        proof {
            self.log@ = self.log@.push(MetricsEvent::TaskCompleted);
            assert(self.log@.drop_last() =~= old(self).log@);
        }
        self.metrics.running_tasks = decrement(self.metrics.running_tasks);
        self.metrics.completed_tasks = increment(self.metrics.completed_tasks);
    }

    /// Increments the count of active threads.
    fn on_worker_started(&mut self)
        ensures
            final(self).view_metrics() == after_worker_started(old(self).view_metrics()),
    {
        proof {
            self.log@ = self.log@.push(MetricsEvent::WorkerStarted);
            assert(self.log@.drop_last() =~= old(self).log@);
        }
        self.metrics.active_threads = increment(self.metrics.active_threads);
    }

    /// Decrements the count of active threads.
    fn on_worker_stopped(&mut self)
        ensures
            final(self).view_metrics() == after_worker_stopped(old(self).view_metrics()),
    {
        proof {
            self.log@ = self.log@.push(MetricsEvent::WorkerStopped);
            assert(self.log@.drop_last() =~= old(self).log@);
        }
        self.metrics.active_threads = decrement(self.metrics.active_threads);
    }
}

/// A task that is submitted, started and completed leaves the counts of
/// queued and running tasks as they were and adds one completed task. This
/// holds even where a counter wraps around.
pub proof fn lemma_task_lifecycle(m: ThreadPoolMetrics)
    ensures
        after_task_completed(after_task_started(after_task_submitted(m))) == (ThreadPoolMetrics {
            completed_tasks: incremented(m.completed_tasks),
            ..m
        }),
{
}

/// A worker that starts and stops leaves the count of active threads as it
/// was.
pub proof fn lemma_worker_lifecycle(m: ThreadPoolMetrics)
    ensures
        (after_worker_stopped(after_worker_started(m))) == m,
{
}

/// Each worker start adds one to the count of active threads and leaves the
/// other counts as they were (where the count does not wrap around).
pub proof fn lemma_workers_started_counts(m: ThreadPoolMetrics, n: nat)
    requires
        m.active_threads + n <= usize::MAX,
    ensures
        metrics_after(m, workers_started(n)) == (ThreadPoolMetrics {
            active_threads: (m.active_threads + n) as usize,
            ..m
        }),
    decreases n,
{
    if n > 0 {
        assert(workers_started(n).drop_last() =~= workers_started((n - 1) as nat));
        lemma_workers_started_counts(m, (n - 1) as nat);
    }
}

/// Each hook moves exactly its counters by one, where they do not wrap
/// around: a submitted task is queued; a started task leaves the queue and
/// runs; a completed task stops running and is counted; a worker start or stop
/// moves the count of active threads.
pub proof fn lemma_hooks_in_numbers(m: ThreadPoolMetrics)
    requires
        m.queued_tasks < usize::MAX,
        m.running_tasks < usize::MAX,
        m.completed_tasks < usize::MAX,
        m.active_threads < usize::MAX,
    ensures
        after_task_submitted(m) == (ThreadPoolMetrics { queued_tasks: (m.queued_tasks + 1) as usize, ..m }),
        m.queued_tasks > 0 ==> after_task_started(m) == (ThreadPoolMetrics {
            queued_tasks: (m.queued_tasks - 1) as usize,
            running_tasks: (m.running_tasks + 1) as usize,
            ..m
        }),
        m.running_tasks > 0 ==> after_task_completed(m) == (ThreadPoolMetrics {
            running_tasks: (m.running_tasks - 1) as usize,
            completed_tasks: (m.completed_tasks + 1) as usize,
            ..m
        }),
        after_worker_started(m) == (ThreadPoolMetrics { active_threads: (m.active_threads + 1) as usize, ..m }),
        m.active_threads > 0 ==> after_worker_stopped(m) == (ThreadPoolMetrics {
            active_threads: (m.active_threads - 1) as usize,
            ..m
        }),
        incremented(usize::MAX) == 0,
        decremented(0) == usize::MAX,
{
}

} // verus!
