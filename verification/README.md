# multipool

The scheduling core of a configurable thread pool, written in Verus and
verified: task queues (first-in first-out, and by priority with first-in
first-out among equal priorities), work stealing between workers, the typed
builder that configures a pool, the fetch modes, and the metrics counters.

Layout:

- `src/queue.rs`: `TaskQueue` (on `crossbeam::queue::SegQueue`) and
  `PriorityQueue`, with the laws of their order.
- `src/priority_stealer.rs`: the priority injector, workers and stealers, the
  batch steal and the fetch decision of a worker, with the laws of the batch
  steal.
- `src/stealer.rs`: the work-stealing queues on `crossbeam::deque` and their
  fetch decision.
- `src/pool/`: the builder and its states, the fetch modes, tasks and
  priorities, and the decision of a worker's loop.
- `src/metrics.rs`: the metrics hooks and the default counters.
- `src/errors.rs`: the pool's errors.
- `app/lib.rs`: the threads, task closures, result handles and locks around
  the verified core (not verified).
- `tests/`: tests of the library.
