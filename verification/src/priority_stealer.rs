//! Priority-based work-stealing queues.
//!
//! A global priority queue (`PriorityInjector`) takes submitted tasks; each
//! worker has a local priority queue (`PriorityWorker`); a `PriorityStealer`
//! names the worker whose queue it takes tasks from, so that idle workers can
//! relieve busy ones.

use vstd::multiset::Multiset;
use vstd::prelude::*;

use crate::metrics::{counts_follow_events, workers_started, MetricsCollector, MetricsEvent};
use crate::pool::task::IPriority;
use crate::queue::{
    all_items, lemma_all_items_pop, lemma_all_items_update, lemma_first_and_rest, entries_after_push, entries_wf, entry_items, entry_le, insertion_index, key_le, next_counter,
    PriorityQueue, QueueEntry,
};

verus! {

/// The result of a steal operation.
pub enum Steal<T> {
    /// The queue is empty, no tasks available to steal.
    Empty,
    /// A task was successfully stolen.
    Success(T),
    /// The operation should be retried (e.g., due to contention).
    Retry,
}

/// The entries of a queue after `items` were pushed one by one, the first
/// pushed with push position `counter`.
pub open spec fn entries_after_pushes<T: IPriority>(
    s: Seq<QueueEntry<T>>,
    counter: usize,
    items: Seq<T>,
) -> Seq<QueueEntry<T>>
    decreases items.len(),
{
    if items.len() == 0 {
        s
    } else {
        entries_after_pushes(
            entries_after_push(s, counter, items[0]),
            next_counter(counter),
            items.drop_first(),
        )
    }
}

/// The push counter after `n` pushes.
pub open spec fn counter_after_pushes(counter: usize, n: nat) -> usize
    decreases n,
{
    if n == 0 {
        counter
    } else {
        counter_after_pushes(next_counter(counter), (n - 1) as nat)
    }
}

/// How many tasks a batch steal takes from a queue of `n`: half, rounded up.
pub open spec fn batch_size(n: nat) -> nat {
    (n + 1) / 2
}

/// A global priority injector queue.
///
/// It takes the submitted tasks and hands them out to workers in batches,
/// highest priority (lowest value) first.
pub struct PriorityInjector<T> {
    global_queue: PriorityQueue<T>,
}

impl<T> View for PriorityInjector<T> {
    type V = Seq<QueueEntry<T>>;

    closed spec fn view(&self) -> Seq<QueueEntry<T>> {
        self.global_queue@
    }
}

impl<T: IPriority> PriorityInjector<T> {
    /// The push position the next task pushed gets.
    pub closed spec fn spec_counter(&self) -> usize {
        self.global_queue.spec_counter()
    }

    /// The queue's entries are ordered and each carries its task's priority.
    pub open spec fn well_formed(&self) -> bool {
        entries_wf(self@)
    }

    /// Creates a new `PriorityInjector` with an empty global queue.
    pub fn new() -> (r: Self)
        ensures
            r.well_formed(),
            r@ == Seq::<QueueEntry<T>>::empty(),
            r.spec_counter() == 0,
    {
        PriorityInjector { global_queue: PriorityQueue::new() }
    }

    /// Pushes a task into the global priority queue.
    pub fn push(&mut self, item: T)
        requires
            old(self).well_formed(),
        ensures
            final(self).well_formed(),
            final(self)@ == entries_after_push(old(self)@, old(self).spec_counter(), item),
            final(self).spec_counter() == next_counter(old(self).spec_counter()),
    {
        self.global_queue.push(item)
    }

    /// Returns the number of tasks in the global queue.
    pub fn len(&self) -> (n: usize)
        ensures
            n == self@.len(),
    {
        self.global_queue.len()
    }

    /// Pops the highest-priority task from the global queue.
    ///
    /// Returns `None` if the queue is empty.
    fn pop(&mut self) -> (r: Option<T>)
        requires
            old(self).well_formed(),
        ensures
            final(self).well_formed(),
            final(self).spec_counter() == old(self).spec_counter(),
            old(self)@.len() == 0 ==> r is None && final(self)@ == old(self)@,
            old(self)@.len() > 0 ==> r == Some(old(self)@[0].2) && final(self)@ == old(
                self,
            )@.drop_first(),
    {
        self.global_queue.pop()
    }

    /// Steals half of the tasks (rounded up), highest priority first, from the
    /// global queue and pushes them, in that order, into a worker's local queue.
    ///
    /// Returns `Steal::Empty` if no tasks were available, `Steal::Success(())`
    /// otherwise.
    pub fn steal_batch(&mut self, dest: &mut PriorityWorker<T>) -> (r: Steal<()>)
        requires
            old(self).well_formed(),
            old(dest).well_formed(),
        ensures
            final(self).well_formed(),
            final(dest).well_formed(),
            final(self).spec_counter() == old(self).spec_counter(),
            final(dest).spec_id() == old(dest).spec_id(),
            old(self)@.len() == 0 ==> r is Empty && *final(self) == *old(self) && *final(dest)
                == *old(dest),
            old(self)@.len() > 0 ==> {
                let k = batch_size(old(self)@.len()) as int;
                &&& r is Success
                &&& final(self)@ == old(self)@.skip(k)
                &&& final(dest)@ == entries_after_pushes(
                    old(dest)@,
                    old(dest).spec_counter(),
                    entry_items(old(self)@.take(k)),
                )
                &&& final(dest).spec_counter() == counter_after_pushes(
                    old(dest).spec_counter(),
                    k as nat,
                )
            },
    {
        let count = self.global_queue.len();
        if count == 0 {
            return Steal::Empty;
        }
        let ghost s0 = self@;
        let half = count / 2 + count % 2;
        let mut stolen: Vec<T> = Vec::new();
        let mut n: usize = 0;
        while n < half
            invariant
                half == batch_size(s0.len()),
                count == s0.len(),
                0 <= n <= half <= count,
                self.well_formed(),
                self.spec_counter() == old(self).spec_counter(),
                self@ == s0.skip(n as int),
                stolen@ == entry_items(s0.take(n as int)),
            decreases half - n,
        {
            let t = self.global_queue.pop();
            match t {
                Some(task) => {
                    proof {
                        assert(s0.skip(n as int)[0] == s0[n as int]);
                        assert(s0.skip(n as int).drop_first() =~= s0.skip(n + 1));
                        assert(entry_items(s0.take(n as int)).push(s0[n as int].2) =~= entry_items(
                            s0.take(n + 1),
                        ));
                    }
                    stolen.push(task);
                },
                None => {},
            }
            n = n + 1;
        }
        dest.push_batch(stolen);
        Steal::Success(())
    }
}

/// A worker with a local priority queue.
pub struct PriorityWorker<T> {
    /// The position of this worker among the workers it was created with.
    id: usize,
    local: PriorityQueue<T>,
}

impl<T> View for PriorityWorker<T> {
    type V = Seq<QueueEntry<T>>;

    closed spec fn view(&self) -> Seq<QueueEntry<T>> {
        self.local@
    }
}

impl<T: IPriority> PriorityWorker<T> {
    /// The push position the next task pushed gets.
    pub closed spec fn spec_counter(&self) -> usize {
        self.local.spec_counter()
    }

    /// The position of this worker among the workers it was created with.
    pub closed spec fn spec_id(&self) -> usize {
        self.id
    }

    /// The queue's entries are ordered and each carries its task's priority.
    pub open spec fn well_formed(&self) -> bool {
        entries_wf(self@)
    }

    /// Creates a new `PriorityWorker` with an empty local queue and the
    /// identifier 0 (a worker on its own; the workers of one set get distinct
    /// identifiers from `prioritized_work_stealing_queues`).
    pub fn new() -> (r: Self)
        ensures
            r.well_formed(),
            r@ == Seq::<QueueEntry<T>>::empty(),
            r.spec_counter() == 0,
            r.spec_id() == 0,
    {
        Self::with_id(0)
    }

    /// Creates a new `PriorityWorker`, the `id`-th of a set of workers.
    fn with_id(id: usize) -> (r: Self)
        ensures
            r.well_formed(),
            r@ == Seq::<QueueEntry<T>>::empty(),
            r.spec_counter() == 0,
            r.spec_id() == id,
    {
        PriorityWorker { id, local: PriorityQueue::new() }
    }

    /// Pushes a task into the local worker queue.
    pub fn push(&mut self, task: T)
        requires
            old(self).well_formed(),
        ensures
            final(self).well_formed(),
            final(self)@ == entries_after_push(old(self)@, old(self).spec_counter(), task),
            final(self).spec_counter() == next_counter(old(self).spec_counter()),
            final(self).spec_id() == old(self).spec_id(),
    {
        self.local.push(task)
    }

    /// Pushes a batch of tasks into the local worker queue, in order.
    fn push_batch(&mut self, items: Vec<T>)
        requires
            old(self).well_formed(),
        ensures
            final(self).well_formed(),
            final(self)@ == entries_after_pushes(old(self)@, old(self).spec_counter(), items@),
            final(self).spec_counter() == counter_after_pushes(
                old(self).spec_counter(),
                items@.len(),
            ),
            final(self).spec_id() == old(self).spec_id(),
    {
        let ghost s0 = self@;
        let ghost c0 = self.spec_counter();
        let ghost all = items@;
        assert(all.skip(0) =~= all);
        for item in iter: items
            invariant
                iter.seq() == all,
                self.well_formed(),
                self.spec_id() == old(self).spec_id(),
                entries_after_pushes(self@, self.spec_counter(), all.skip(iter.index() as int))
                    == entries_after_pushes(s0, c0, all),
                counter_after_pushes(self.spec_counter(), (all.len() - iter.index()) as nat)
                    == counter_after_pushes(c0, all.len()),
        {
            proof {
                let i = iter.index() as int;
                assert(all.skip(i)[0] == all[i]);
                assert(all.skip(i).drop_first() =~= all.skip(i + 1));
            }
            self.local.push(item);
        }
        proof {
            assert(all.skip(all.len() as int) =~= Seq::<T>::empty());
        }
    }

    /// Pops the highest-priority task from the local queue.
    ///
    /// Returns `None` if the queue is empty.
    pub fn pop(&mut self) -> (r: Option<T>)
        requires
            old(self).well_formed(),
        ensures
            final(self).well_formed(),
            final(self).spec_counter() == old(self).spec_counter(),
            final(self).spec_id() == old(self).spec_id(),
            old(self)@.len() == 0 ==> r is None && final(self)@ == old(self)@,
            old(self)@.len() > 0 ==> r == Some(old(self)@[0].2) && final(self)@ == old(
                self,
            )@.drop_first(),
    {
        self.local.pop()
    }

    /// Returns the number of tasks in the local queue.
    pub fn len(&self) -> (n: usize)
        ensures
            n == self@.len(),
    {
        self.local.len()
    }

    /// Creates a `PriorityStealer` that steals from this worker's local queue:
    /// it carries the worker's identifier.
    pub fn stealer(&self) -> (r: PriorityStealer)
        ensures
            r.victim == self.spec_id(),
    {
        PriorityStealer { victim: self.id }
    }
}

/// A stealer that takes tasks from one worker's local priority queue.
///
/// It is bound to its worker by the worker's identifier: it only steals from
/// a worker that carries that identifier. The workers that
/// `prioritized_work_stealing_queues` makes carry distinct identifiers (their
/// positions), so there each stealer takes from exactly the worker it came
/// from.
pub struct PriorityStealer {
    /// The identifier of the worker it steals from.
    pub victim: usize,
}

impl PriorityStealer {
    /// Attempts to steal the highest-priority task from the local queue of
    /// `victim`, the worker this stealer belongs to.
    ///
    /// Returns `Steal::Empty` if that queue holds no task, and
    /// `Steal::Success(t)` with the task taken otherwise.
    pub fn steal<T: IPriority>(&self, victim: &mut PriorityWorker<T>) -> (r: Steal<T>)
        requires
            old(victim).well_formed(),
            old(victim).spec_id() == self.victim,
        ensures
            final(victim).well_formed(),
            final(victim).spec_counter() == old(victim).spec_counter(),
            final(victim).spec_id() == old(victim).spec_id(),
            old(victim)@.len() == 0 ==> r is Empty && *final(victim) == *old(victim),
            old(victim)@.len() > 0 ==> r == Steal::Success(old(victim)@[0].2) && final(victim)@ == old(
                victim,
            )@.drop_first(),
    {
        if victim.len() == 0 {
            return Steal::Empty;
        }
        match victim.pop() {
            Some(t) => Steal::Success(t),
            None => Steal::Retry,
        }
    }
}

/// Creates prioritized work-stealing queues: a global priority injector
/// queue, and for each of `num_workers` workers a local priority queue and a
/// stealer that takes tasks from it.
///
/// If a metrics collector is given, it is told of each worker created.
pub fn prioritized_work_stealing_queues<T: IPriority, C: MetricsCollector>(
    num_workers: usize,
    metrics_collector: &mut Option<C>,
) -> (r: (PriorityInjector<T>, Vec<PriorityStealer>, Vec<PriorityWorker<T>>))
    ensures
        *old(metrics_collector) is None ==> *final(metrics_collector) is None,
        *old(metrics_collector) is Some ==> *final(metrics_collector) is Some && (C::records_events()
            ==> (*final(metrics_collector))->0.events() == (*old(metrics_collector))->0.events()
            + workers_started(num_workers as nat)),
        *old(metrics_collector) is Some && C::counts_events() ==> {
            &&& (*final(metrics_collector))->0.start_counters() == (*old(metrics_collector))->0.start_counters()
            &&& counts_follow_events(&(*old(metrics_collector))->0) ==> counts_follow_events(
                &(*final(metrics_collector))->0,
            )
        },
        r.0.well_formed(),
        r.0@ == Seq::<QueueEntry<T>>::empty(),
        r.0.spec_counter() == 0,
        r.1@.len() == num_workers,
        r.2@.len() == num_workers,
        forall|i: int| 0 <= i < num_workers ==> (#[trigger] r.1@[i]).victim == i,
        forall|i: int|
            0 <= i < num_workers ==> {
                &&& (#[trigger] r.2@[i]).well_formed()
                &&& r.2@[i]@ == Seq::<QueueEntry<T>>::empty()
                &&& r.2@[i].spec_counter() == 0
                &&& r.2@[i].spec_id() == i
            },
{
    let injector = PriorityInjector::new();
    let mut workers: Vec<PriorityWorker<T>> = Vec::with_capacity(num_workers);
    let mut stealers: Vec<PriorityStealer> = Vec::with_capacity(num_workers);
    let mut i: usize = 0;
    while i < num_workers
        invariant
            0 <= i <= num_workers,
            stealers@.len() == i,
            workers@.len() == i,
            *old(metrics_collector) is None ==> *metrics_collector is None,
            *old(metrics_collector) is Some ==> *metrics_collector is Some && (C::records_events()
                ==> (*metrics_collector)->0.events() == (*old(metrics_collector))->0.events()
                + workers_started(i as nat)),
            *old(metrics_collector) is Some && C::counts_events() ==> {
                &&& (*metrics_collector)->0.start_counters() == (*old(metrics_collector))->0.start_counters()
                &&& counts_follow_events(&(*old(metrics_collector))->0) ==> counts_follow_events(
                    &(*metrics_collector)->0,
                )
            },

            forall|j: int| 0 <= j < i ==> (#[trigger] stealers@[j]).victim == j,
            forall|j: int|
                0 <= j < i ==> {
                    &&& (#[trigger] workers@[j]).well_formed()
                    &&& workers@[j]@ == Seq::<QueueEntry<T>>::empty()
                    &&& workers@[j].spec_counter() == 0
                    &&& workers@[j].spec_id() == j
                },
        decreases num_workers - i,
    {
        let w = PriorityWorker::with_id(i);
        match metrics_collector {
            Some(m) => m.on_worker_started(),
            None => {},
        }
        proof {
            if *old(metrics_collector) is Some && C::records_events() {
                assert(workers_started(i as nat).push(MetricsEvent::WorkerStarted) =~= workers_started(
                    (i + 1) as nat,
                ));
            }
        }
        stealers.push(w.stealer());
        workers.push(w);
        i = i + 1;
    }
    (injector, stealers, workers)
}

/// The position, among `stealers` from `from` on, of the first stealer whose
/// worker's local queue holds a task.
pub open spec fn first_stealable<T>(
    workers: Seq<PriorityWorker<T>>,
    stealers: Seq<PriorityStealer>,
    from: int,
) -> Option<int>
    decreases stealers.len() - from,
{
    if from < 0 || from >= stealers.len() {
        None
    } else if workers[stealers[from].victim as int]@.len() > 0 {
        Some(from)
    } else {
        first_stealable(workers, stealers, from + 1)
    }
}

/// `after` is `before` with the highest-priority task of worker `j` taken.
pub open spec fn popped_at<T: IPriority>(
    before: Seq<PriorityWorker<T>>,
    after: Seq<PriorityWorker<T>>,
    j: int,
) -> bool {
    &&& after.len() == before.len()
    &&& forall|i: int| 0 <= i < before.len() && i != j ==> after[i] == before[i]
    &&& after[j].well_formed()
    &&& after[j]@ == before[j]@.drop_first()
    &&& after[j].spec_counter() == before[j].spec_counter()
    &&& after[j].spec_id() == before[j].spec_id()
}

/// The tasks in each worker's local queue, highest priority first.
pub open spec fn worker_items<T>(workers: Seq<PriorityWorker<T>>) -> Seq<Seq<T>> {
    workers.map_values(|w: PriorityWorker<T>| entry_items(w@))
}

/// Every task held, in the global queue or in a worker's local queue, counted
/// with multiplicity.
pub open spec fn queued_tasks<T>(injector: Seq<QueueEntry<T>>, workers: Seq<PriorityWorker<T>>) -> Multiset<T> {
    entry_items(injector).to_multiset().add(all_items(worker_items(workers)))
}

/// Taking the first task of one worker's queue takes exactly that task from
/// all the tasks held.
proof fn lemma_pop_keeps_tasks<T: IPriority>(
    injector: Seq<QueueEntry<T>>,
    before: Seq<PriorityWorker<T>>,
    after: Seq<PriorityWorker<T>>,
    j: int,
)
    requires
        0 <= j < before.len(),
        before[j]@.len() > 0,
        popped_at(before, after, j),
    ensures
        queued_tasks(injector, after).insert(before[j]@[0].2) == queued_tasks(injector, before),
{
    broadcast use vstd::multiset::group_multiset_axioms;

    let v = worker_items(before);
    assert(entry_items(before[j]@.drop_first()) =~= v[j].drop_first());
    assert(worker_items(after) =~= v.update(j, v[j].drop_first()));
    lemma_all_items_pop(v, j);
    let a = all_items(worker_items(after));
    assert(entry_items(injector).to_multiset().add(a).insert(v[j][0]) =~= entry_items(
        injector,
    ).to_multiset().add(a.insert(v[j][0])));
}

/// Moving a batch from the head of the global queue into an empty worker
/// queue and taking the first task there takes exactly that task from all the
/// tasks held.
proof fn lemma_batch_then_pop_keeps_tasks<T: IPriority>(
    injector: Seq<QueueEntry<T>>,
    before: Seq<PriorityWorker<T>>,
    after: Seq<PriorityWorker<T>>,
    me: int,
    k: int,
)
    requires
        0 <= me < before.len(),
        before[me]@.len() == 0,
        1 <= k <= injector.len(),
        after.len() == before.len(),
        forall|i: int| 0 <= i < before.len() && i != me ==> after[i] == before[i],
        after[me]@ == entries_after_pushes(
            before[me]@,
            before[me].spec_counter(),
            entry_items(injector.take(k)),
        ).drop_first(),
    ensures
        ({
            let moved = entries_after_pushes(
                before[me]@,
                before[me].spec_counter(),
                entry_items(injector.take(k)),
            );
            queued_tasks(injector.skip(k), after).insert(moved[0].2) == queued_tasks(injector, before)
        }),
{
    broadcast use vstd::multiset::group_multiset_axioms;
    broadcast use vstd::seq_lib::group_to_multiset_ensures;

    let taken = entry_items(injector.take(k));
    let moved = entries_after_pushes(before[me]@, before[me].spec_counter(), taken);
    lemma_entries_after_pushes_len(before[me]@, before[me].spec_counter(), taken);
    lemma_pushes_add_items(before[me]@, before[me].spec_counter(), taken);
    let v = worker_items(before);
    assert(v[me] =~= Seq::<T>::empty());
    assert(v[me].to_multiset() =~= Multiset::empty());
    let mi = entry_items(moved);
    assert(mi.to_multiset() =~= taken.to_multiset());
    lemma_first_and_rest(mi);
    assert(entry_items(moved.drop_first()) =~= mi.drop_first());
    assert(worker_items(after) =~= v.update(me, mi.drop_first()));
    lemma_all_items_update(v, me, mi.drop_first());
    assert(entry_items(injector) =~= taken + entry_items(injector.skip(k)));
    vstd::seq_lib::lemma_multiset_commutative(taken, entry_items(injector.skip(k)));
    let a = all_items(worker_items(after));
    assert(a.add(v[me].to_multiset()) =~= a);
    assert(queued_tasks(injector.skip(k), after).insert(moved[0].2) =~= queued_tasks(injector, before));
}

/// The length of a queue after pushes.
pub proof fn lemma_entries_after_pushes_len<T: IPriority>(
    s: Seq<QueueEntry<T>>,
    counter: usize,
    items: Seq<T>,
)
    ensures
        entries_after_pushes(s, counter, items).len() == s.len() + items.len(),
    decreases items.len(),
{
    if items.len() > 0 {
        let s1 = entries_after_push(s, counter, items[0]);
        crate::queue::lemma_entries_after_push_len(s, counter, items[0]);
        lemma_entries_after_pushes_len(s1, next_counter(counter), items.drop_first());
    }
}

/// Fetches the next task for the worker at position `me`.
///
/// The worker first takes from its own local queue; if that is empty, it
/// moves a batch from the global queue into its local queue and takes from
/// there; if that is empty too, it steals from the workers that `stealers`
/// name, in order, and takes the first task found. `None` if there is none.
pub fn fetch_priority_task<T: IPriority>(
    injector: &mut PriorityInjector<T>,
    workers: &mut Vec<PriorityWorker<T>>,
    stealers: &Vec<PriorityStealer>,
    me: usize,
) -> (r: Option<T>)
    requires
        old(injector).well_formed(),
        me < old(workers)@.len(),
        forall|i: int| 0 <= i < old(workers)@.len() ==> (#[trigger] old(workers)@[i]).well_formed(),
        forall|i: int| 0 <= i < old(workers)@.len() ==> (#[trigger] old(workers)@[i]).spec_id() == i,
        forall|i: int| 0 <= i < stealers@.len() ==> (#[trigger] stealers@[i]).victim < old(workers)@.len(),
    ensures
        forall|i: int| 0 <= i < final(workers)@.len() ==> (#[trigger] final(workers)@[i]).spec_id() == i,
        final(injector).well_formed(),
        final(injector).spec_counter() == old(injector).spec_counter(),
        final(workers)@.len() == old(workers)@.len(),
        // No task is lost or duplicated: the one returned leaves the queues.
        r is Some ==> queued_tasks(final(injector)@, final(workers)@).insert(r->0) == queued_tasks(
            old(injector)@,
            old(workers)@,
        ),
        r is None ==> queued_tasks(final(injector)@, final(workers)@) == queued_tasks(
            old(injector)@,
            old(workers)@,
        ),
        forall|i: int| 0 <= i < final(workers)@.len() ==> (#[trigger] final(workers)@[i]).well_formed(),
        // The worker's own queue holds a task: that one comes out.
        old(workers)@[me as int]@.len() > 0 ==> {
            &&& r == Some(old(workers)@[me as int]@[0].2)
            &&& final(injector)@ == old(injector)@
            &&& popped_at(old(workers)@, final(workers)@, me as int)
        },
        // Otherwise a batch from the global queue is moved in first.
        old(workers)@[me as int]@.len() == 0 && old(injector)@.len() > 0 ==> {
            let k = batch_size(old(injector)@.len()) as int;
            let w = old(workers)@[me as int];
            let moved = entries_after_pushes(w@, w.spec_counter(), entry_items(old(injector)@.take(k)));
            &&& r == Some(moved[0].2)
            &&& final(injector)@ == old(injector)@.skip(k)
            &&& final(workers)@[me as int]@ == moved.drop_first()
            &&& final(workers)@[me as int].spec_counter() == counter_after_pushes(w.spec_counter(), k as nat)
            &&& final(workers)@[me as int].spec_id() == w.spec_id()
            &&& forall|i: int| 0 <= i < old(workers)@.len() && i != me ==> final(workers)@[i] == old(workers)@[i]
        },
        // Otherwise the first task found by the stealers, in their order.
        old(workers)@[me as int]@.len() == 0 && old(injector)@.len() == 0 ==> {
            &&& final(injector)@ == old(injector)@
            &&& match first_stealable(old(workers)@, stealers@, 0) {
                Some(j) => {
                    let v = stealers@[j].victim as int;
                    &&& r == Some(old(workers)@[v]@[0].2)
                    &&& popped_at(old(workers)@, final(workers)@, v)
                },
                None => r is None && final(workers)@ == old(workers)@,
            }
        },
{
    // First try to pop from this thread's worker.
    if workers[me].len() > 0 {
        let r = workers[me].pop();
        proof {
            lemma_pop_keeps_tasks(injector@, old(workers)@, workers@, me as int);
        }
        return r;
    }
    // Try stealing a batch of tasks from the injector.
    let ghost w0 = workers@[me as int];
    let ghost i0 = injector@;
    let batch = injector.steal_batch(&mut workers[me]);
    match batch {
        Steal::Success(_) => {
            proof {
                let k = batch_size(i0.len()) as int;
                lemma_entries_after_pushes_len(w0@, w0.spec_counter(), entry_items(i0.take(k)));
            }
            let r = workers[me].pop();
            proof {
                let k = batch_size(i0.len()) as int;
                lemma_batch_then_pop_keeps_tasks(i0, old(workers)@, workers@, me as int, k);
            }
            return r;
        },
        _ => {},
    }
    // Try stealing from the workers, in the order of the stealers.
    let mut j: usize = 0;
    while j < stealers.len()
        invariant
            0 <= j <= stealers@.len(),
            me < old(workers)@.len(),
            old(workers)@[me as int]@.len() == 0,
            old(injector)@.len() == 0,
            workers@ == old(workers)@,
            injector@ == old(injector)@,
            injector.well_formed(),
            injector.spec_counter() == old(injector).spec_counter(),
            forall|i: int| 0 <= i < old(workers)@.len() ==> (#[trigger] old(workers)@[i]).well_formed(),
            forall|i: int| 0 <= i < old(workers)@.len() ==> (#[trigger] old(workers)@[i]).spec_id() == i,
            forall|i: int| 0 <= i < stealers@.len() ==> (#[trigger] stealers@[i]).victim < old(workers)@.len(),
            first_stealable(old(workers)@, stealers@, 0) == first_stealable(old(workers)@, stealers@, j as int),
        decreases stealers@.len() - j,
    {
        let v = stealers[j].victim;
        match stealers[j].steal(&mut workers[v]) {
            Steal::Success(t) => {
                proof {
                    let v = stealers@[j as int].victim as int;
                    lemma_pop_keeps_tasks(injector@, old(workers)@, workers@, v);
                }
                return Some(t);
            },
            _ => {},
        }
        j = j + 1;
    }
    None
}

/// The entries for `items` pushed in order onto a queue that already holds
/// every key before them, the first with push position `counter`.
pub open spec fn appended_entries<T: IPriority>(items: Seq<T>, counter: usize) -> Seq<QueueEntry<T>> {
    Seq::new(items.len(), |j: int| (items[j].spec_priority(), (counter + j) as usize, items[j]))
}

/// Pushing an item adds it to the items of the queue.
proof fn lemma_push_adds_item<T: IPriority>(s: Seq<QueueEntry<T>>, counter: usize, item: T)
    ensures
        entry_items(entries_after_push(s, counter, item)).to_multiset() == entry_items(
            s,
        ).to_multiset().insert(item),
{
    broadcast use vstd::seq_lib::group_to_multiset_ensures;

    let k = insertion_index(s, item.spec_priority(), counter);
    crate::queue::lemma_entries_after_push_len(s, counter, item);
    crate::queue::lemma_insertion_index_bounds(s, item.spec_priority(), counter);
    let e = (item.spec_priority(), counter, item);
    s.insert_ensures(k, e);
    assert(entry_items(s.insert(k, e)) =~= entry_items(s).insert(k, item));
    vstd::seq_lib::to_multiset_insert(entry_items(s), k, item);
}

/// Pushing items adds them to the items of the queue.
proof fn lemma_pushes_add_items<T: IPriority>(s: Seq<QueueEntry<T>>, counter: usize, items: Seq<T>)
    ensures
        entry_items(entries_after_pushes(s, counter, items)).to_multiset() == entry_items(
            s,
        ).to_multiset().add(items.to_multiset()),
    decreases items.len(),
{
    broadcast use vstd::seq_lib::group_to_multiset_ensures;

    if items.len() == 0 {
        assert(items.to_multiset() =~= vstd::multiset::Multiset::empty());
        assert(entry_items(s).to_multiset().add(items.to_multiset()) =~= entry_items(s).to_multiset());
    } else {
        let s1 = entries_after_push(s, counter, items[0]);
        lemma_push_adds_item(s, counter, items[0]);
        lemma_pushes_add_items(s1, next_counter(counter), items.drop_first());
        assert(items =~= seq![items[0]] + items.drop_first());
        vstd::seq_lib::lemma_multiset_commutative(seq![items[0]], items.drop_first());
        assert(seq![items[0]].to_multiset() =~= vstd::multiset::Multiset::empty().insert(items[0]));
        assert(entry_items(s).to_multiset().add(items.to_multiset()) =~= entry_items(
            s,
        ).to_multiset().insert(items[0]).add(items.drop_first().to_multiset()));
    }
}

/// A batch steal loses and duplicates no task: the tasks left in the global
/// queue and those now in the worker's queue are, together, the tasks of both
/// before the steal.
pub proof fn lemma_batch_keeps_every_task<T: IPriority>(
    source: Seq<QueueEntry<T>>,
    dest: Seq<QueueEntry<T>>,
    counter: usize,
    k: int,
)
    requires
        0 <= k <= source.len(),
    ensures
        entry_items(source.skip(k)).to_multiset().add(
            entry_items(entries_after_pushes(dest, counter, entry_items(source.take(k)))).to_multiset(),
        ) == entry_items(source).to_multiset().add(entry_items(dest).to_multiset()),
{
    lemma_pushes_add_items(dest, counter, entry_items(source.take(k)));
    assert(entry_items(source) =~= entry_items(source.take(k)) + entry_items(source.skip(k)));
    vstd::seq_lib::lemma_multiset_commutative(entry_items(source.take(k)), entry_items(source.skip(k)));
    assert(entry_items(source.skip(k)).to_multiset().add(
        entry_items(dest).to_multiset().add(entry_items(source.take(k)).to_multiset()),
    ) =~= entry_items(source.take(k)).to_multiset().add(entry_items(source.skip(k)).to_multiset()).add(
        entry_items(dest).to_multiset(),
    ));
}

/// Items pushed in order of nondecreasing priority, with no wrap of the push
/// counter, onto a queue whose entries all come before the first of them, are
/// appended in that order.
proof fn lemma_sorted_pushes_append<T: IPriority>(s: Seq<QueueEntry<T>>, counter: usize, items: Seq<T>)
    requires
        counter + items.len() <= usize::MAX + 1,
        forall|a: int, b: int|
            0 <= a < b < items.len() ==> (#[trigger] items[a]).spec_priority().0 <= (
            #[trigger] items[b]).spec_priority().0,
        items.len() > 0 ==> forall|i: int|
            0 <= i < s.len() ==> key_le(#[trigger] s[i], items[0].spec_priority(), counter),
    ensures
        entries_after_pushes(s, counter, items) == s + appended_entries(items, counter),
    decreases items.len(),
{
    if items.len() == 0 {
        assert(s + appended_entries(items, counter) =~= s);
    } else {
        let p0 = items[0].spec_priority();
        let e0 = (p0, counter, items[0]);
        crate::queue::lemma_insertion_index_of_split(s, p0, counter, s.len() as int);
        let s1 = entries_after_push(s, counter, items[0]);
        assert(s1 =~= s.push(e0));
        let rest = items.drop_first();
        if rest.len() > 0 {
            assert(counter < usize::MAX);
            assert(next_counter(counter) == counter + 1);
            assert(items[0].spec_priority().0 <= items[1].spec_priority().0);
            assert forall|i: int| 0 <= i < s1.len() implies key_le(
                #[trigger] s1[i],
                rest[0].spec_priority(),
                next_counter(counter),
            ) by {
                if i < s.len() {
                    assert(s1[i] == s[i]);
                }
            }
        }
        assert forall|a: int, b: int| 0 <= a < b < rest.len() implies (
        #[trigger] rest[a]).spec_priority().0 <= (#[trigger] rest[b]).spec_priority().0 by {
            assert(rest[a] == items[a + 1] && rest[b] == items[b + 1]);
        }
        lemma_sorted_pushes_append(s1, next_counter(counter), rest);
        if rest.len() > 0 {
            assert(s1 + appended_entries(rest, next_counter(counter)) =~= s + appended_entries(
                items,
                counter,
            ));
        } else {
            assert(s1 + appended_entries(rest, next_counter(counter)) =~= s + appended_entries(
                items,
                counter,
            ));
        }
    }
}

/// A worker whose queue is empty and that takes a batch from a well-formed
/// global queue (with no wrap of its push counter) holds the batch in the
/// global queue's order, so the highest-priority task of the global queue is
/// the first it runs.
pub proof fn lemma_batch_keeps_priority_order<T: IPriority>(
    source: Seq<QueueEntry<T>>,
    counter: usize,
    k: int,
)
    requires
        entries_wf(source),
        0 < k <= source.len(),
        counter + k <= usize::MAX + 1,
    ensures
        entries_after_pushes(Seq::<QueueEntry<T>>::empty(), counter, entry_items(source.take(k)))
            == appended_entries(entry_items(source.take(k)), counter),
        entries_after_pushes(Seq::<QueueEntry<T>>::empty(), counter, entry_items(source.take(k)))[0].2
            == source[0].2,
{
    let items = entry_items(source.take(k));
    assert forall|a: int, b: int| 0 <= a < b < items.len() implies (
    #[trigger] items[a]).spec_priority().0 <= (#[trigger] items[b]).spec_priority().0 by {
        assert(items[a] == source[a].2 && items[b] == source[b].2);
        assert(entry_le(source[a], source[b]));
    }
    lemma_sorted_pushes_append(Seq::<QueueEntry<T>>::empty(), counter, items);
    assert(Seq::<QueueEntry<T>>::empty() + appended_entries(items, counter) =~= appended_entries(
        items,
        counter,
    ));
}

/// What a worker pushes is what its stealer takes: a task pushed onto an
/// empty local queue is the only entry there, so the worker's stealer (which
/// carries the worker's identifier, so `steal` accepts that worker) takes
/// exactly that task and leaves the queue empty.
pub proof fn lemma_stealer_takes_what_worker_pushed<T: IPriority>(counter: usize, item: T)
    ensures
        entries_after_push(Seq::<QueueEntry<T>>::empty(), counter, item).len() == 1,
        entries_after_push(Seq::<QueueEntry<T>>::empty(), counter, item)[0].2 == item,
        entries_after_push(Seq::<QueueEntry<T>>::empty(), counter, item).drop_first()
            == Seq::<QueueEntry<T>>::empty(),
{
    let s = Seq::<QueueEntry<T>>::empty();
    assert(insertion_index(s, item.spec_priority(), counter) == 0);
    let r = entries_after_push(s, counter, item);
    assert(r =~= seq![(item.spec_priority(), counter, item)]);
    assert(r.drop_first() =~= s);
}

/// A batch steal takes half of the tasks, rounded up: twice the batch size
/// is the number of tasks, or one more than it.
pub proof fn lemma_batch_size_is_half_rounded_up(n: nat)
    ensures
        2 * batch_size(n) == n || 2 * batch_size(n) == n + 1,
        n > 0 ==> batch_size(n) >= 1,
        batch_size(n) <= n,
{
}

/// The scan of the stealers from position `from` finds the first stealer, in
/// stealer order, whose worker's local queue holds a task: it finds none
/// exactly when every such queue from `from` on is empty.
pub proof fn lemma_first_stealable_from<T>(
    workers: Seq<PriorityWorker<T>>,
    stealers: Seq<PriorityStealer>,
    from: int,
)
    requires
        0 <= from <= stealers.len(),
    ensures
        first_stealable(workers, stealers, from) is None <==> forall|j: int|
            from <= j < stealers.len() ==> (#[trigger] workers[stealers[j].victim as int])@.len() == 0,
        first_stealable(workers, stealers, from) matches Some(j) ==> {
            &&& from <= j < stealers.len()
            &&& workers[stealers[j].victim as int]@.len() > 0
            &&& forall|i: int|
                from <= i < j ==> (#[trigger] workers[stealers[i].victim as int])@.len() == 0
        },
    decreases stealers.len() - from,
{
    if from < stealers.len() {
        lemma_first_stealable_from(workers, stealers, from + 1);
    }
}

/// With its own queue and the global queue empty, a worker's fetch tries every
/// stealer, starting at the first: it finds no task exactly when every worker
/// a stealer names has an empty local queue, and otherwise takes from the
/// first stealer (in stealer order) whose worker's queue holds a task.
pub proof fn lemma_first_stealable_finds_first<T>(
    workers: Seq<PriorityWorker<T>>,
    stealers: Seq<PriorityStealer>,
)
    ensures
        first_stealable(workers, stealers, 0) is None <==> forall|j: int|
            0 <= j < stealers.len() ==> (#[trigger] workers[stealers[j].victim as int])@.len() == 0,
        first_stealable(workers, stealers, 0) matches Some(j) ==> {
            &&& 0 <= j < stealers.len()
            &&& workers[stealers[j].victim as int]@.len() > 0
            &&& forall|i: int|
                0 <= i < j ==> (#[trigger] workers[stealers[i].victim as int])@.len() == 0
        },
{
    lemma_first_stealable_from(workers, stealers, 0);
}

} // verus!
