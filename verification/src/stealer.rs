//! Work-stealing queues built on `crossbeam::deque`.
//!
//! A global `Injector` takes submitted tasks; each worker has a first-in
//! first-out `Worker` queue. A worker takes from its own queue, refills it
//! with a batch from the injector, and otherwise steals from the other
//! workers' queues.

use vstd::multiset::Multiset;
use vstd::prelude::*;

use crossbeam::deque::{Injector, Worker};

use crate::metrics::{counts_follow_events, workers_started, MetricsCollector, MetricsEvent};
use crate::pool::task::TaskId;
use crate::priority_stealer::Steal;
use crate::queue::{all_items, lemma_all_items_pop, lemma_all_items_update, lemma_first_and_rest};

verus! {

#[verifier::external_type_specification]
#[verifier::external_body]
#[verifier::reject_recursive_types(T)]
pub struct ExInjector<T>(Injector<T>);

#[verifier::external_type_specification]
#[verifier::external_body]
#[verifier::reject_recursive_types(T)]
pub struct ExWorker<T>(Worker<T>);

/// The tasks held by an `Injector`, from the head (next to be stolen) to the tail.
pub uninterp spec fn injector_contents(q: Injector<TaskId>) -> Seq<TaskId>;

/// The tasks held by a `Worker` queue, from the front (next to be popped or
/// stolen) to the back.
pub uninterp spec fn worker_contents(w: Worker<TaskId>) -> Seq<TaskId>;

/// The `Worker` queue was made first-in first-out (`Worker::new_fifo`).
pub uninterp spec fn worker_is_fifo(w: Worker<TaskId>) -> bool;

/// `Injector::new`: the new injector holds nothing.
#[verifier::external_body]
fn injector_new() -> (q: Injector<TaskId>)
    ensures
        injector_contents(q) == Seq::<TaskId>::empty(),
{
    Injector::new()
}

/// `Injector::push`: with the injector borrowed exclusively, the task is
/// appended at the tail.
#[verifier::external_body]
fn injector_push(q: &mut Injector<TaskId>, task: TaskId)
    ensures
        injector_contents(*final(q)) == injector_contents(*old(q)).push(task),
{
    q.push(task)
}

/// `Injector::steal_batch`, with both queues borrowed exclusively.
///
/// `Empty` exactly when the injector holds nothing. `Retry` (its head index is
/// moved by a weak compare-and-exchange, which may fail spuriously) leaves both
/// queues as they were. `Success` moves a nonempty run of tasks from the
/// injector's head, in order, to the back of the first-in first-out `dest`.
/// How many tasks move is left unsaid: the crate's documentation does not fix
/// it ("around half", capped by a constant and by the end of a block).
#[verifier::external_body]
fn injector_steal_batch(q: &mut Injector<TaskId>, dest: &mut Worker<TaskId>) -> (r: Steal<()>)
    requires
        worker_is_fifo(*old(dest)),
    ensures
        worker_is_fifo(*final(dest)),
        r is Empty <==> injector_contents(*old(q)).len() == 0,
        !(r is Success) ==> injector_contents(*final(q)) == injector_contents(*old(q))
            && worker_contents(*final(dest)) == worker_contents(*old(dest)),
        r is Success ==> exists|k: int|
            1 <= k <= injector_contents(*old(q)).len() && injector_contents(*final(q))
                == injector_contents(*old(q)).skip(k) && worker_contents(*final(dest))
                == worker_contents(*old(dest)) + injector_contents(*old(q)).take(k),
{
    match q.steal_batch(dest) {
        crossbeam::deque::Steal::Empty => Steal::Empty,
        crossbeam::deque::Steal::Success(u) => Steal::Success(u),
        crossbeam::deque::Steal::Retry => Steal::Retry,
    }
}

/// `Worker::new_fifo`: a new, empty, first-in first-out worker queue.
#[verifier::external_body]
fn worker_new_fifo() -> (w: Worker<TaskId>)
    ensures
        worker_contents(w) == Seq::<TaskId>::empty(),
        worker_is_fifo(w),
{
    Worker::new_fifo()
}

/// `Worker::pop` on a first-in first-out queue borrowed exclusively: `None`
/// exactly when it is empty; otherwise the front task is removed and returned.
#[verifier::external_body]
fn worker_pop(w: &mut Worker<TaskId>) -> (r: Option<TaskId>)
    requires
        worker_is_fifo(*old(w)),
    ensures
        worker_is_fifo(*final(w)),
        worker_contents(*old(w)).len() == 0 ==> r is None && worker_contents(*final(w))
            == worker_contents(*old(w)),
        worker_contents(*old(w)).len() > 0 ==> r == Some(worker_contents(*old(w))[0])
            && worker_contents(*final(w)) == worker_contents(*old(w)).drop_first(),
{
    w.pop()
}

/// `Stealer::steal` through a stealer of `w` (made with `Worker::stealer` and
/// dropped at once), with `w` borrowed exclusively: `Empty` exactly when `w` is
/// empty; otherwise the front task is taken (the compare-and-exchange that takes
/// it is a strong one, which does not fail without a rival).
#[verifier::external_body]
fn worker_steal(w: &mut Worker<TaskId>) -> (r: Steal<TaskId>)
    ensures
        worker_is_fifo(*final(w)) == worker_is_fifo(*old(w)),
        worker_contents(*old(w)).len() == 0 ==> r is Empty && worker_contents(*final(w))
            == worker_contents(*old(w)),
        worker_contents(*old(w)).len() > 0 ==> r == Steal::Success(worker_contents(*old(w))[0])
            && worker_contents(*final(w)) == worker_contents(*old(w)).drop_first(),
{
    match w.stealer().steal() {
        crossbeam::deque::Steal::Empty => Steal::Empty,
        crossbeam::deque::Steal::Success(t) => Steal::Success(t),
        crossbeam::deque::Steal::Retry => Steal::Retry,
    }
}

/// The position, among `queues` from `from` on, of the first queue that holds
/// a task.
pub open spec fn first_nonempty(queues: Seq<Seq<TaskId>>, from: int) -> Option<int>
    decreases queues.len() - from,
{
    if from < 0 || from >= queues.len() {
        None
    } else if queues[from].len() > 0 {
        Some(from)
    } else {
        first_nonempty(queues, from + 1)
    }
}

/// Taking the front task of one worker's queue takes exactly that task from
/// all the tasks held.
proof fn lemma_tasks_after_pop(inj: Seq<TaskId>, v: Seq<Seq<TaskId>>, j: int)
    requires
        0 <= j < v.len(),
        v[j].len() > 0,
    ensures
        inj.to_multiset().add(all_items(v.update(j, v[j].drop_first()))).insert(v[j][0])
            == inj.to_multiset().add(all_items(v)),
{
    broadcast use vstd::multiset::group_multiset_axioms;

    lemma_all_items_pop(v, j);
    let a = all_items(v.update(j, v[j].drop_first()));
    assert(inj.to_multiset().add(a).insert(v[j][0]) =~= inj.to_multiset().add(a.insert(v[j][0])));
}

/// Moving a batch from the head of the injector into an empty worker queue
/// and taking its first task takes exactly that task from all the tasks held.
proof fn lemma_batch_then_pop_keeps_tasks(inj: Seq<TaskId>, v: Seq<Seq<TaskId>>, me: int, k: int)
    requires
        0 <= me < v.len(),
        v[me].len() == 0,
        1 <= k <= inj.len(),
    ensures
        inj.skip(k).to_multiset().add(all_items(v.update(me, inj.take(k).drop_first()))).insert(inj[0])
            == inj.to_multiset().add(all_items(v)),
{
    broadcast use vstd::multiset::group_multiset_axioms;
    broadcast use vstd::seq_lib::group_to_multiset_ensures;

    let t = inj.take(k);
    let rest = t.drop_first();
    lemma_all_items_update(v, me, rest);
    lemma_first_and_rest(t);
    assert(inj =~= t + inj.skip(k));
    vstd::seq_lib::lemma_multiset_commutative(t, inj.skip(k));
    assert(v[me].to_multiset() =~= Multiset::empty());
    let a = all_items(v.update(me, rest));
    assert(a.add(v[me].to_multiset()) =~= a);
    assert(inj.skip(k).to_multiset().add(a).insert(inj[0]) =~= inj.to_multiset().add(all_items(v)));
}

/// The work-stealing queues of a pool: a global injector and one first-in
/// first-out queue per worker.
pub struct WorkStealingQueues {
    injector: Injector<TaskId>,
    workers: Vec<Worker<TaskId>>,
}

impl WorkStealingQueues {
    /// The tasks in the global injector, next to be taken first.
    pub closed spec fn injector_view(&self) -> Seq<TaskId> {
        injector_contents(self.injector)
    }

    /// The tasks in each worker's queue, next to be taken first.
    pub closed spec fn worker_views(&self) -> Seq<Seq<TaskId>> {
        self.workers@.map_values(|w: Worker<TaskId>| worker_contents(w))
    }

    /// Every task held, in the injector or in a worker's queue, counted with
    /// multiplicity.
    pub open spec fn tasks(&self) -> Multiset<TaskId> {
        self.injector_view().to_multiset().add(all_items(self.worker_views()))
    }

    /// Every worker queue is first-in first-out.
    pub closed spec fn well_formed(&self) -> bool {
        forall|i: int| 0 <= i < self.workers@.len() ==> worker_is_fifo(#[trigger] self.workers@[i])
    }

    /// Returns the number of workers.
    pub fn num_workers(&self) -> (n: usize)
        ensures
            n == self.worker_views().len(),
    {
        self.workers.len()
    }

    /// Submits a task: it is pushed into the global injector.
    pub fn push(&mut self, task: TaskId)
        requires
            old(self).well_formed(),
        ensures
            final(self).well_formed(),
            final(self).injector_view() == old(self).injector_view().push(task),
            final(self).worker_views() == old(self).worker_views(),
            final(self).tasks() == old(self).tasks().insert(task),
    {
        injector_push(&mut self.injector, task);
        proof {
            broadcast use vstd::seq_lib::group_to_multiset_ensures;
            broadcast use vstd::multiset::group_multiset_axioms;

            assert(self.tasks() =~= old(self).tasks().insert(task));
        }
    }

    /// Fetches the next task for the worker at position `me`.
    ///
    /// The worker first pops from its own queue; if that is empty, it moves a
    /// batch from the injector into its queue and pops from there; otherwise
    /// it steals from the workers' queues in order and takes the first task
    /// found. `None` if there is none.
    pub fn fetch_task(&mut self, me: usize) -> (r: Option<TaskId>)
        requires
            old(self).well_formed(),
            me < old(self).worker_views().len(),
        ensures
            final(self).well_formed(),
            // No task is lost or duplicated: the one returned leaves the queues.
            r is Some ==> final(self).tasks().insert(r->0) == old(self).tasks(),
            r is None ==> final(self).tasks() == old(self).tasks(),
            ({
                let v = old(self).worker_views();
                let inj = old(self).injector_view();
                &&& final(self).worker_views().len() == v.len()
                // The worker's own queue holds a task: that one comes out.
                &&& v[me as int].len() > 0 ==> {
                    &&& r == Some(v[me as int][0])
                    &&& final(self).injector_view() == inj
                    &&& final(self).worker_views() == v.update(me as int, v[me as int].drop_first())
                }
                // Otherwise the head of the injector comes out, and the rest of
                // the batch moved with it stays in the worker's queue; or (a
                // spurious retry of the batch) the first task the stealers find.
                &&& v[me as int].len() == 0 ==> {
                    ||| {
                        &&& inj.len() > 0
                        &&& r == Some(inj[0])
                        &&& exists|k: int|
                            1 <= k <= inj.len() && final(self).injector_view() == inj.skip(k)
                                && final(self).worker_views() == v.update(
                                me as int,
                                inj.take(k).drop_first(),
                            )
                    }
                    ||| {
                        &&& final(self).injector_view() == inj
                        &&& match first_nonempty(v, 0) {
                            Some(j) => r == Some(v[j][0]) && final(self).worker_views() == v.update(
                                j,
                                v[j].drop_first(),
                            ),
                            None => r is None && final(self).worker_views() == v,
                        }
                    }
                }
                // With an empty injector, only stealing is left.
                &&& v[me as int].len() == 0 && inj.len() == 0 ==> final(self).injector_view() == inj
                    && match first_nonempty(v, 0) {
                    Some(j) => r == Some(v[j][0]) && final(self).worker_views() == v.update(
                        j,
                        v[j].drop_first(),
                    ),
                    None => r is None && final(self).worker_views() == v,
                }
            }),
    {
        let ghost v0 = self.worker_views();
        let ghost i0 = self.injector_view();
        // First try to pop from this thread's worker.
        let own = worker_pop(&mut self.workers[me]);
        proof {
            assert(self.worker_views() =~= v0.update(me as int, worker_contents(self.workers@[me as int])));
        }
        if own.is_some() {
            proof {
                lemma_all_items_pop(v0, me as int);
                lemma_tasks_after_pop(i0, v0, me as int);
            }
            return own;
        }
        // Try stealing a batch of tasks from the injector.
        let batch = injector_steal_batch(&mut self.injector, &mut self.workers[me]);
        let ghost vb = self.worker_views();
        let ghost ib = self.injector_view();
        proof {
            assert(vb =~= v0.update(me as int, worker_contents(self.workers@[me as int])));
        }
        let r = self.fetch_after_batch(me, batch);
        proof {
            if batch is Success {
                let k = choose|k: int|
                    1 <= k <= i0.len() && ib == i0.skip(k) && vb[me as int] == v0[me as int] + i0.take(k);
                assert(vb[me as int] =~= i0.take(k));
                assert(self.worker_views() =~= v0.update(me as int, i0.take(k).drop_first()));
                lemma_batch_then_pop_keeps_tasks(i0, v0, me as int, k);
            } else {
                assert(vb =~= v0);
            }
        }
        r
    }

    /// The rest of a fetch for the worker at position `me`, once the batch
    /// steal from the injector has given `batch`.
    ///
    /// After a successful batch, the front of the worker's own queue comes
    /// out. Otherwise (the injector was empty, or the steal is to be retried)
    /// the worker steals from the workers' queues in order and takes the first
    /// task found; `None` if there is none.
    pub fn fetch_after_batch(&mut self, me: usize, batch: Steal<()>) -> (r: Option<TaskId>)
        requires
            old(self).well_formed(),
            me < old(self).worker_views().len(),
        ensures
            final(self).well_formed(),
            final(self).injector_view() == old(self).injector_view(),
            final(self).worker_views().len() == old(self).worker_views().len(),
            r is Some ==> final(self).tasks().insert(r->0) == old(self).tasks(),
            r is None ==> final(self).tasks() == old(self).tasks(),
            ({
                let v = old(self).worker_views();
                &&& batch is Success && v[me as int].len() > 0 ==> {
                    &&& r == Some(v[me as int][0])
                    &&& final(self).worker_views() == v.update(me as int, v[me as int].drop_first())
                }
                &&& !(batch is Success && v[me as int].len() > 0) ==> match first_nonempty(v, 0) {
                    Some(j) => r == Some(v[j][0]) && final(self).worker_views() == v.update(
                        j,
                        v[j].drop_first(),
                    ),
                    None => r is None && final(self).worker_views() == v,
                }
            }),
    {
        let ghost v0 = self.worker_views();
        let ghost i0 = self.injector_view();
        match batch {
            Steal::Success(_) => {
                let t = worker_pop(&mut self.workers[me]);
                proof {
                    assert(self.worker_views() =~= v0.update(me as int, worker_contents(self.workers@[me as int])));
                }
                if t.is_some() {
                    proof {
                        lemma_tasks_after_pop(i0, v0, me as int);
                    }
                    return t;
                }
                proof {
                    assert(self.worker_views() =~= v0);
                }
            },
            _ => {},
        }
        // Try stealing from the workers, in order.
        let n = self.workers.len();
        let mut j: usize = 0;
        while j < n
            invariant
                n == v0.len(),
                0 <= j <= n,
                me < n,
                v0 == old(self).worker_views(),
                i0 == old(self).injector_view(),
                self.well_formed(),
                self.worker_views() == v0,
                self.injector_view() == i0,
                !(batch is Success && v0[me as int].len() > 0),
                first_nonempty(v0, 0) == first_nonempty(v0, j as int),
            decreases n - j,
        {
            proof {
                assert(worker_contents(self.workers@[j as int]) == self.worker_views()[j as int]);
            }
            let s = worker_steal(&mut self.workers[j]);
            proof {
                assert(self.worker_views() =~= v0.update(j as int, worker_contents(self.workers@[j as int])));
            }
            match s {
                Steal::Success(t) => {
                    proof {
                        assert(first_nonempty(v0, j as int) == Some(j as int));
                        lemma_tasks_after_pop(i0, v0, j as int);
                    }
                    return Some(t);
                },
                _ => {},
            }
            proof {
                assert(self.worker_views() =~= v0);
            }
            j = j + 1;
        }
        None
    }
}

/// Creates the work-stealing queues of a pool: a global injector and a
/// first-in first-out queue for each of `num_workers` workers, all empty.
///
/// If a metrics collector is given, it is told of each worker created.
pub fn work_stealing_queues<C: MetricsCollector>(
    num_workers: usize,
    metrics_collector: &mut Option<C>,
) -> (r: WorkStealingQueues)
    ensures
        *old(metrics_collector) is None ==> *final(metrics_collector) is None,
        *old(metrics_collector) is Some ==> *final(metrics_collector) is Some && (C::records_events()
            ==> (*final(metrics_collector))->0.events() == (*old(metrics_collector))->0.events()
            + workers_started(num_workers as nat)),
        *old(metrics_collector) is Some && C::counts_events() ==> {
            &&& (*final(metrics_collector))->0.start_counters() == (*old(metrics_collector))->0.start_counters()
            &&& counts_follow_events(&(*old(metrics_collector))->0) ==> counts_follow_events(
                &(*final(metrics_collector))->0,
            )
        },
        r.well_formed(),
        r.injector_view() == Seq::<TaskId>::empty(),
        r.worker_views().len() == num_workers,
        forall|i: int| 0 <= i < num_workers ==> (#[trigger] r.worker_views()[i]) == Seq::<TaskId>::empty(),
{
    let injector = injector_new();
    let mut workers: Vec<Worker<TaskId>> = Vec::with_capacity(num_workers);
    let mut i: usize = 0;
    while i < num_workers
        invariant
            0 <= i <= num_workers,
            workers@.len() == i,
            forall|j: int| 0 <= j < i ==> worker_is_fifo(#[trigger] workers@[j]),
            forall|j: int| 0 <= j < i ==> worker_contents(#[trigger] workers@[j]) == Seq::<TaskId>::empty(),
            *old(metrics_collector) is None ==> *metrics_collector is None,
            *old(metrics_collector) is Some ==> *metrics_collector is Some && (C::records_events()
                ==> (*metrics_collector)->0.events() == (*old(metrics_collector))->0.events()
                + workers_started(i as nat)),
            *old(metrics_collector) is Some && C::counts_events() ==> {
                &&& (*metrics_collector)->0.start_counters() == (*old(metrics_collector))->0.start_counters()
                &&& counts_follow_events(&(*old(metrics_collector))->0) ==> counts_follow_events(
                    &(*metrics_collector)->0,
                )
            },
        decreases num_workers - i,
    {
        let w = worker_new_fifo();
        match metrics_collector {
            Some(m) => m.on_worker_started(),
            None => {},
        }
        proof {
            if *old(metrics_collector) is Some && C::records_events() {
                assert(workers_started(i as nat).push(MetricsEvent::WorkerStarted) =~= workers_started(
                    (i + 1) as nat,
                ));
            }
        }
        workers.push(w);
        i = i + 1;
    }
    WorkStealingQueues { injector, workers }
}

/// The scan of the queues from position `from` finds the first queue that
/// holds a task: it finds none exactly when every queue from `from` on, the
/// last one included, is empty.
pub proof fn lemma_first_nonempty_from(queues: Seq<Seq<TaskId>>, from: int)
    requires
        0 <= from <= queues.len(),
    ensures
        first_nonempty(queues, from) is None <==> forall|j: int|
            from <= j < queues.len() ==> (#[trigger] queues[j]).len() == 0,
        first_nonempty(queues, from) matches Some(j) ==> {
            &&& from <= j < queues.len()
            &&& queues[j].len() > 0
            &&& forall|i: int| from <= i < j ==> (#[trigger] queues[i]).len() == 0
        },
    decreases queues.len() - from,
{
    if from < queues.len() {
        lemma_first_nonempty_from(queues, from + 1);
    }
}

/// When a fetch does not take from the injector, it steals from every
/// worker's queue in order: it finds no task exactly when all of them are
/// empty, and otherwise takes from the first nonempty one.
pub proof fn lemma_first_nonempty_finds_first(queues: Seq<Seq<TaskId>>)
    ensures
        first_nonempty(queues, 0) is None <==> forall|j: int|
            0 <= j < queues.len() ==> (#[trigger] queues[j]).len() == 0,
        first_nonempty(queues, 0) matches Some(j) ==> {
            &&& 0 <= j < queues.len()
            &&& queues[j].len() > 0
            &&& forall|i: int| 0 <= i < j ==> (#[trigger] queues[i]).len() == 0
        },
{
    lemma_first_nonempty_from(queues, 0);
}

} // verus!
