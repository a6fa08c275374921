//! Configuration of a thread pool.
//!
//! The `ThreadPoolBuilder` records how many worker threads a pool has, an
//! optional metrics collector, and, in its type, which task fetching mode the
//! pool uses: a global queue or work stealing, with or without priorities.
//! The typed states make only the valid combinations expressible.

pub mod modes;
pub mod task;
pub mod worker;

use std::marker::PhantomData;

use vstd::prelude::*;

use crate::metrics::AtomicMetricsCollector;

verus! {

/// The states of the `ThreadPoolBuilder`.
pub trait IBuilderState {}

/// The default state: no feature enabled; the pool uses a global queue and
/// processes tasks in submission order.
pub struct DefaultModeState;

impl IBuilderState for DefaultModeState {}

/// Work stealing enabled: each worker has its own local queue and takes tasks
/// from the other workers' queues when its own is empty. No priorities.
pub struct WorkStealingState;

impl IBuilderState for WorkStealingState {}

/// Priority scheduling enabled: tasks wait in a global priority queue and
/// those of lower priority value run first. No work stealing.
pub struct PriorityState;

impl IBuilderState for PriorityState {}

/// Both priority scheduling and work stealing enabled: each worker has a local
/// priority queue and steals from the others when it runs dry.
pub struct PriorityWorkStealingState;

impl IBuilderState for PriorityWorkStealingState {}

/// A builder for configuring a thread pool.
///
/// The state `S` records the features enabled; `C` is the type of the
/// metrics collector.
pub struct ThreadPoolBuilder<S: IBuilderState = DefaultModeState, C = AtomicMetricsCollector> {
    num_threads: usize,
    metrics_collector: Option<C>,
    _state: PhantomData<S>,
}

impl<S: IBuilderState, C> ThreadPoolBuilder<S, C> {
    /// The number of worker threads configured.
    pub closed spec fn spec_num_threads(&self) -> usize {
        self.num_threads
    }

    /// The metrics collector configured, if any.
    pub closed spec fn spec_metrics_collector(&self) -> Option<C> {
        self.metrics_collector
    }

    /// Adds a metrics collector to the builder.
    pub fn with_metrics_collector<D>(self, collector: D) -> (r: ThreadPoolBuilder<S, D>)
        ensures
            r.spec_num_threads() == self.spec_num_threads(),
            r.spec_metrics_collector() == Some(collector),
    {
        ThreadPoolBuilder {
            num_threads: self.num_threads,
            metrics_collector: Some(collector),
            _state: PhantomData,
        }
    }

    /// Sets the number of threads for the thread pool.
    pub fn num_threads(self, n: usize) -> (r: Self)
        ensures
            r.spec_num_threads() == n,
            r.spec_metrics_collector() == self.spec_metrics_collector(),
    {
        ThreadPoolBuilder { num_threads: n, metrics_collector: self.metrics_collector, _state: PhantomData }
    }

    /// Returns the number of threads configured.
    pub fn thread_count(&self) -> (n: usize)
        ensures
            n == self.spec_num_threads(),
    {
        self.num_threads
    }

    /// Consumes the builder and returns its metrics collector, if any.
    pub fn into_metrics_collector(self) -> (c: Option<C>)
        ensures
            c == self.spec_metrics_collector(),
    {
        self.metrics_collector
    }

    /// The same configuration in another state.
    fn into_state<T: IBuilderState>(self) -> (r: ThreadPoolBuilder<T, C>)
        ensures
            r.spec_num_threads() == self.spec_num_threads(),
            r.spec_metrics_collector() == self.spec_metrics_collector(),
    {
        ThreadPoolBuilder {
            num_threads: self.num_threads,
            metrics_collector: self.metrics_collector,
            _state: PhantomData,
        }
    }
}

impl ThreadPoolBuilder<DefaultModeState> {
    /// Creates a new `ThreadPoolBuilder` with default settings: four threads,
    /// no metrics collector, a global queue.
    pub fn new() -> (r: Self)
        ensures
            r.spec_num_threads() == 4,
            r.spec_metrics_collector() is None,
    {
        Self { num_threads: 4, metrics_collector: None, _state: PhantomData }
    }
}

impl<C> ThreadPoolBuilder<DefaultModeState, C> {
    /// Configures the builder to enable work-stealing mode.
    pub fn set_work_stealing(self) -> (r: ThreadPoolBuilder<WorkStealingState, C>)
        ensures
            r.spec_num_threads() == self.spec_num_threads(),
            r.spec_metrics_collector() == self.spec_metrics_collector(),
    {
        self.into_state()
    }

    /// Configures the builder to enable priority-based task scheduling.
    pub fn enable_priority(self) -> (r: ThreadPoolBuilder<PriorityState, C>)
        ensures
            r.spec_num_threads() == self.spec_num_threads(),
            r.spec_metrics_collector() == self.spec_metrics_collector(),
    {
        self.into_state()
    }
}

impl<C> ThreadPoolBuilder<WorkStealingState, C> {
    /// Configures the builder to enable priority-based task scheduling.
    pub fn enable_priority(self) -> (r: ThreadPoolBuilder<PriorityWorkStealingState, C>)
        ensures
            r.spec_num_threads() == self.spec_num_threads(),
            r.spec_metrics_collector() == self.spec_metrics_collector(),
    {
        self.into_state()
    }
}

} // verus!
