//! A configurable thread pool's scheduling core: task queues with priority
//! ordering and work stealing, builder configuration, and metrics counters.

pub mod errors;
pub mod metrics;
pub mod pool;
pub mod priority_stealer;
pub mod queue;
pub mod stealer;

pub use pool::ThreadPoolBuilder;
