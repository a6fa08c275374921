//! Queues of tasks.
//!
//! - `TaskQueue`: a first-in first-out queue of task identifiers, kept in a
//!   `crossbeam::queue::SegQueue`.
//! - `PriorityQueue<T>`: a priority queue that hands out the item of lowest
//!   priority value first and, among items of equal priority, the one pushed
//!   first.

use vstd::multiset::Multiset;
use vstd::prelude::*;

use crossbeam::queue::SegQueue;

use crate::pool::task::{IPriority, Priority, TaskId};

verus! {

// ---------------------------------------------------------------------------
// The lock-free FIFO queue of crossbeam.
// ---------------------------------------------------------------------------

#[verifier::external_type_specification]
#[verifier::external_body]
#[verifier::reject_recursive_types(T)]
pub struct ExSegQueue<T>(SegQueue<T>);

/// The identifiers held by a `SegQueue`, from the head (next to pop) to the tail.
pub uninterp spec fn seg_queue_contents(q: SegQueue<TaskId>) -> Seq<TaskId>;

/// `SegQueue::new`: the new queue holds nothing.
#[verifier::external_body]
fn seg_queue_new() -> (q: SegQueue<TaskId>)
    ensures
        seg_queue_contents(q) == Seq::<TaskId>::empty(),
{
    SegQueue::new()
}

/// `SegQueue::push`: with the queue borrowed exclusively, the value is
/// appended at the tail ("pushes back an element to the tail").
#[verifier::external_body]
fn seg_queue_push(q: &mut SegQueue<TaskId>, value: TaskId)
    ensures
        seg_queue_contents(*final(q)) == seg_queue_contents(*old(q)).push(value),
{
    q.push(value)
}

/// `SegQueue::pop`: with the queue borrowed exclusively, `None` exactly when
/// it is empty; otherwise the head is removed and returned.
#[verifier::external_body]
fn seg_queue_pop(q: &mut SegQueue<TaskId>) -> (r: Option<TaskId>)
    ensures
        seg_queue_contents(*old(q)).len() == 0 ==> r is None && seg_queue_contents(*final(q))
            == seg_queue_contents(*old(q)),
        seg_queue_contents(*old(q)).len() > 0 ==> r == Some(seg_queue_contents(*old(q))[0])
            && seg_queue_contents(*final(q)) == seg_queue_contents(*old(q)).drop_first(),
{
    q.pop()
}

/// A first-in first-out queue of tasks.
pub struct TaskQueue {
    inner: SegQueue<TaskId>,
}

impl View for TaskQueue {
    type V = Seq<TaskId>;

    closed spec fn view(&self) -> Seq<TaskId> {
        seg_queue_contents(self.inner)
    }
}

impl TaskQueue {
    /// Creates a new, empty `TaskQueue`.
    pub fn new() -> (r: Self)
        ensures
            r@ == Seq::<TaskId>::empty(),
    {
        TaskQueue { inner: seg_queue_new() }
    }

    /// Adds a task at the back of the queue.
    pub fn push(&mut self, t: TaskId)
        ensures
            final(self)@ == old(self)@.push(t),
    {
        seg_queue_push(&mut self.inner, t)
    }

    /// Removes and returns the task at the front of the queue.
    ///
    /// Returns `None` if the queue is empty.
    pub fn pop(&mut self) -> (r: Option<TaskId>)
        ensures
            old(self)@.len() == 0 ==> r is None && final(self)@ == old(self)@,
            old(self)@.len() > 0 ==> r == Some(old(self)@[0]) && final(self)@ == old(
                self,
            )@.drop_first(),
    {
        seg_queue_pop(&mut self.inner)
    }
}

/// A `TaskQueue` is first-in first-out: of two tasks pushed one after the
/// other, the first stands ahead of the second, and a pop from a nonempty
/// queue takes the front without disturbing the order of what was pushed
/// behind it.
pub proof fn lemma_task_queue_first_in_first_out(s: Seq<TaskId>, a: TaskId, b: TaskId)
    ensures
        s.push(a).push(b)[s.len() as int] == a,
        s.push(a).push(b)[s.len() as int + 1] == b,
        s.len() > 0 ==> s.push(a).drop_first() == s.drop_first().push(a),
{
    if s.len() > 0 {
        assert(s.push(a).drop_first() =~= s.drop_first().push(a));
    }
}

// ---------------------------------------------------------------------------
// Counting the items held by several queues.
// ---------------------------------------------------------------------------

/// All the items held by a sequence of queues, counted with multiplicity.
pub open spec fn all_items<A>(queues: Seq<Seq<A>>) -> Multiset<A>
    decreases queues.len(),
{
    if queues.len() == 0 {
        Multiset::empty()
    } else {
        all_items(queues.drop_last()).add(queues.last().to_multiset())
    }
}

/// Replacing one queue changes the items held by exactly what it held and
/// what replaces it.
pub proof fn lemma_all_items_update<A>(queues: Seq<Seq<A>>, j: int, q: Seq<A>)
    requires
        0 <= j < queues.len(),
    ensures
        all_items(queues.update(j, q)).add(queues[j].to_multiset()) == all_items(queues).add(
            q.to_multiset(),
        ),
    decreases queues.len(),
{
    broadcast use vstd::multiset::group_multiset_axioms;

    let u = queues.update(j, q);
    assert(all_items(u) == all_items(u.drop_last()).add(u.last().to_multiset()));
    assert(all_items(queues) == all_items(queues.drop_last()).add(queues.last().to_multiset()));
    if j == queues.len() - 1 {
        assert(u.drop_last() =~= queues.drop_last());
        assert(u.last() == q);
        assert(all_items(u).add(queues[j].to_multiset()) =~= all_items(queues).add(q.to_multiset()));
    } else {
        assert(u.drop_last() =~= queues.drop_last().update(j, q));
        assert(u.last() == queues.last());
        lemma_all_items_update(queues.drop_last(), j, q);
        assert(queues.drop_last()[j] == queues[j]);
        let a = all_items(queues.drop_last().update(j, q));
        let b = all_items(queues.drop_last());
        assert(all_items(u.drop_last()) == a);
        assert(a.add(queues[j].to_multiset()) == b.add(q.to_multiset()));
        let l = queues.last().to_multiset();
        assert(a.add(l).add(queues[j].to_multiset()) =~= b.add(l).add(q.to_multiset())) by {
            assert forall|v: A| #[trigger] a.add(l).add(queues[j].to_multiset()).count(v) == b.add(l).add(
                q.to_multiset(),
            ).count(v) by {
                assert(a.add(queues[j].to_multiset()).count(v) == b.add(q.to_multiset()).count(v));
            }
        }
    }
}

/// A sequence holds its first item and the rest.
pub proof fn lemma_first_and_rest<A>(s: Seq<A>)
    requires
        s.len() > 0,
    ensures
        s.to_multiset() == s.drop_first().to_multiset().insert(s[0]),
{
    broadcast use vstd::seq_lib::group_to_multiset_ensures;

    assert(s.drop_first() =~= s.remove(0));
    assert(s.to_multiset().count(s[0]) > 0);
    assert(s.to_multiset() =~= s.drop_first().to_multiset().insert(s[0]));
}

/// Taking the first item of a nonempty queue takes exactly that item from
/// the items held.
pub proof fn lemma_all_items_pop<A>(queues: Seq<Seq<A>>, j: int)
    requires
        0 <= j < queues.len(),
        queues[j].len() > 0,
    ensures
        all_items(queues.update(j, queues[j].drop_first())).insert(queues[j][0]) == all_items(queues),
{
    broadcast use vstd::multiset::group_multiset_axioms;

    lemma_all_items_update(queues, j, queues[j].drop_first());
    lemma_first_and_rest(queues[j]);
    let u = queues.update(j, queues[j].drop_first());
    let rest = queues[j].drop_first().to_multiset();
    assert(all_items(u).add(rest.insert(queues[j][0])) == all_items(queues).add(rest));
    assert forall|v: A| #[trigger] all_items(u).insert(queues[j][0]).count(v) == all_items(queues).count(v) by {
        assert(all_items(u).add(rest.insert(queues[j][0])).count(v) == all_items(queues).add(rest).count(v));
    }
    assert(all_items(u).insert(queues[j][0]) =~= all_items(queues));
}

// ---------------------------------------------------------------------------
// The priority queue.
// ---------------------------------------------------------------------------

/// An entry of a priority queue: the priority it is ordered by, the position
/// of its push among all pushes (to keep first-in first-out order among equal
/// priorities), and the item.
pub type QueueEntry<T> = (Priority, usize, T);

/// The key of entry `e` is at most `(priority, seq)`, ordered first by priority
/// value and then by push position.
pub open spec fn key_le<T>(e: QueueEntry<T>, priority: Priority, seq: usize) -> bool {
    e.0.0 < priority.0 || (e.0.0 == priority.0 && e.1 <= seq)
}

/// The key of `a` is at most the key of `b`.
pub open spec fn entry_le<T>(a: QueueEntry<T>, b: QueueEntry<T>) -> bool {
    key_le(a, b.0, b.1)
}

/// The entries are ordered by key, the next one to leave first.
pub open spec fn sorted_by_key<T>(s: Seq<QueueEntry<T>>) -> bool {
    forall|i: int, j: int| 0 <= i < j < s.len() ==> entry_le(#[trigger] s[i], #[trigger] s[j])
}

/// The entries of a well-formed priority queue: ordered by key, and each
/// stored with the priority of its item.
pub open spec fn entries_wf<T: IPriority>(s: Seq<QueueEntry<T>>) -> bool {
    &&& sorted_by_key(s)
    &&& forall|i: int| 0 <= i < s.len() ==> (#[trigger] s[i]).0 == s[i].2.spec_priority()
}

/// The number of leading entries whose key is at most `(priority, seq)`: the
/// place where an entry with that key goes, behind every entry that does not
/// come after it.
pub open spec fn insertion_index<T>(s: Seq<QueueEntry<T>>, priority: Priority, seq: usize) -> int
    decreases s.len(),
{
    if s.len() == 0 {
        0
    } else if key_le(s[0], priority, seq) {
        1 + insertion_index(s.drop_first(), priority, seq)
    } else {
        0
    }
}

/// The entries after `item` was pushed with push position `seq`.
pub open spec fn entries_after_push<T: IPriority>(s: Seq<QueueEntry<T>>, seq: usize, item: T) -> Seq<
    QueueEntry<T>,
> {
    s.insert(insertion_index(s, item.spec_priority(), seq), (item.spec_priority(), seq, item))
}

/// The push counter after one more push: it wraps around at `usize::MAX`.
pub open spec fn next_counter(c: usize) -> usize {
    if c == usize::MAX {
        0
    } else {
        (c + 1) as usize
    }
}

/// The items of a sequence of entries, in order.
pub open spec fn entry_items<T>(s: Seq<QueueEntry<T>>) -> Seq<T> {
    s.map_values(|e: QueueEntry<T>| e.2)
}

/// The insertion index is the first position whose entry is not at most the
/// key, when all entries before it are.
pub proof fn lemma_insertion_index_of_split<T>(s: Seq<QueueEntry<T>>, priority: Priority, seq: usize, k: int)
    requires
        0 <= k <= s.len(),
        forall|i: int| 0 <= i < k ==> key_le(#[trigger] s[i], priority, seq),
        k < s.len() ==> !key_le(s[k], priority, seq),
    ensures
        insertion_index(s, priority, seq) == k,
    decreases s.len(),
{
    if s.len() > 0 && k > 0 {
        let t = s.drop_first();
        assert forall|i: int| 0 <= i < k - 1 implies key_le(#[trigger] t[i], priority, seq) by {
            assert(t[i] == s[i + 1]);
        }
        lemma_insertion_index_of_split(t, priority, seq, k - 1);
    }
}

/// The insertion index splits the entries into those at most the key and the
/// rest.
pub proof fn lemma_insertion_index_bounds<T>(s: Seq<QueueEntry<T>>, priority: Priority, seq: usize)
    ensures
        0 <= insertion_index(s, priority, seq) <= s.len(),
        forall|i: int| 0 <= i < insertion_index(s, priority, seq) ==> key_le(#[trigger] s[i], priority, seq),
        insertion_index(s, priority, seq) < s.len() ==> !key_le(
            s[insertion_index(s, priority, seq)],
            priority,
            seq,
        ),
    decreases s.len(),
{
    if s.len() > 0 && key_le(s[0], priority, seq) {
        let t = s.drop_first();
        lemma_insertion_index_bounds(t, priority, seq);
        assert forall|i: int| 0 <= i < insertion_index(s, priority, seq) implies key_le(
            #[trigger] s[i],
            priority,
            seq,
        ) by {
            if i > 0 {
                assert(s[i] == t[i - 1]);
            }
        }
        if insertion_index(s, priority, seq) < s.len() {
            assert(s[insertion_index(s, priority, seq)] == t[insertion_index(t, priority, seq)]);
        }
    }
}

/// Inserting at the insertion index keeps a sorted sequence sorted.
proof fn lemma_insert_keeps_sorted<T>(s: Seq<QueueEntry<T>>, e: QueueEntry<T>)
    requires
        sorted_by_key(s),
    ensures
        sorted_by_key(s.insert(insertion_index(s, e.0, e.1), e)),
{
    let k = insertion_index(s, e.0, e.1);
    lemma_insertion_index_bounds(s, e.0, e.1);
    let r = s.insert(k, e);
    s.insert_ensures(k, e);
    assert forall|i: int, j: int| 0 <= i < j < r.len() implies entry_le(#[trigger] r[i], #[trigger] r[j]) by {
        if j < k {
            assert(r[i] == s[i] && r[j] == s[j]);
        } else if j == k {
            assert(r[i] == s[i]);
        } else if i < k {
            assert(r[i] == s[i] && r[j] == s[j - 1]);
        } else if i == k {
            assert(r[j] == s[j - 1]);
            assert(entry_le(s[k], s[j - 1]));
        } else {
            assert(r[i] == s[i - 1] && r[j] == s[j - 1]);
        }
    }
}

/// A push adds one entry.
pub proof fn lemma_entries_after_push_len<T: IPriority>(s: Seq<QueueEntry<T>>, seq: usize, item: T)
    ensures
        entries_after_push(s, seq, item).len() == s.len() + 1,
{
    lemma_insertion_index_bounds(s, item.spec_priority(), seq);
}

/// A priority queue of items that carry a priority.
///
/// The item of lowest priority value leaves first; among items of equal
/// priority, the one pushed first leaves first.
pub struct PriorityQueue<T> {
    /// The entries, ordered by key: the next to leave is at the front.
    heap: Vec<QueueEntry<T>>,
    /// The push position given to the next item pushed.
    counter: usize,
}

impl<T> View for PriorityQueue<T> {
    type V = Seq<QueueEntry<T>>;

    closed spec fn view(&self) -> Seq<QueueEntry<T>> {
        self.heap@
    }
}

impl<T: IPriority> PriorityQueue<T> {
    /// The push position the next item pushed gets.
    pub closed spec fn spec_counter(&self) -> usize {
        self.counter
    }

    /// The queue's entries are ordered and each carries its item's priority.
    pub open spec fn well_formed(&self) -> bool {
        entries_wf(self@)
    }

    /// Creates a new, empty `PriorityQueue`.
    pub fn new() -> (r: Self)
        ensures
            r.well_formed(),
            r@ == Seq::<QueueEntry<T>>::empty(),
            r.spec_counter() == 0,
    {
        PriorityQueue { heap: Vec::new(), counter: 0 }
    }

    /// The place at which an entry of key `(priority, seq)` goes: behind every
    /// entry whose key is at most that key.
    fn find_insertion_index(&self, priority: Priority, seq: usize) -> (idx: usize)
        requires
            self.well_formed(),
        ensures
            idx == insertion_index(self@, priority, seq),
    {
        let mut lo: usize = 0;
        let mut hi: usize = self.heap.len();
        while lo < hi
            invariant
                0 <= lo <= hi <= self@.len(),
                sorted_by_key(self@),
                forall|i: int| 0 <= i < lo ==> key_le(#[trigger] self@[i], priority, seq),
                forall|i: int| hi <= i < self@.len() ==> !key_le(#[trigger] self@[i], priority, seq),
            decreases hi - lo,
        {
            let mid = lo + (hi - lo) / 2;
            let e = &self.heap[mid];
            if e.0.0 < priority.0 || (e.0.0 == priority.0 && e.1 <= seq) {
                assert forall|i: int| 0 <= i < mid + 1 implies key_le(#[trigger] self@[i], priority, seq) by {
                    if i < mid {
                        assert(entry_le(self@[i], self@[mid as int]));
                    }
                }
                lo = mid + 1;
            } else {
                assert forall|i: int| mid <= i < self@.len() implies !key_le(
                    #[trigger] self@[i],
                    priority,
                    seq,
                ) by {
                    if i > mid {
                        assert(entry_le(self@[mid as int], self@[i]));
                    }
                }
                hi = mid;
            }
        }
        proof {
            lemma_insertion_index_of_split(self@, priority, seq, lo as int);
        }
        lo
    }

    /// Adds an item to the priority queue.
    ///
    /// Items are ordered by their priority (lower values come out first). If
    /// two items have the same priority, the one added earlier comes out first.
    pub fn push(&mut self, item: T)
        requires
            old(self).well_formed(),
        ensures
            final(self).well_formed(),
            final(self)@ == entries_after_push(old(self)@, old(self).spec_counter(), item),
            final(self).spec_counter() == next_counter(old(self).spec_counter()),
    {
        let count = self.counter;
        let priority = item.priority();
        let idx = self.find_insertion_index(priority, count);
        proof {
            lemma_insertion_index_bounds(self@, priority, count);
            lemma_insert_keeps_sorted(self@, (priority, count, item));
            self@.insert_ensures(idx as int, (priority, count, item));
        }
        self.heap.insert(idx, (priority, count, item));
        self.counter = count.wrapping_add(1);
        proof {
            let s = old(self)@;
            let r = self@;
            assert forall|i: int| 0 <= i < r.len() implies (#[trigger] r[i]).0 == r[i].2.spec_priority() by {
                if i > idx {
                    assert(r[i] == s[i - 1]);
                } else if i < idx {
                    assert(r[i] == s[i]);
                }
            }
        }
    }

    /// Removes and returns the item that comes out first: the one of lowest
    /// priority value, and among those the one pushed first.
    ///
    /// Returns `None` if the queue is empty.
    pub fn pop(&mut self) -> (r: Option<T>)
        requires
            old(self).well_formed(),
        ensures
            final(self).well_formed(),
            final(self).spec_counter() == old(self).spec_counter(),
            old(self)@.len() == 0 ==> r is None && final(self)@ == old(self)@,
            old(self)@.len() > 0 ==> r == Some(old(self)@[0].2) && final(self)@ == old(
                self,
            )@.drop_first(),
            old(self)@.len() > 0 ==> forall|i: int|
                0 <= i < old(self)@.len() ==> entry_le(old(self)@[0], #[trigger] old(self)@[i]),
    {
        if self.heap.len() == 0 {
            None
        } else {
            proof {
                assert forall|i: int| 0 <= i < old(self)@.len() implies entry_le(
                    old(self)@[0],
                    #[trigger] old(self)@[i],
                ) by {
                    if i > 0 {
                        assert(entry_le(old(self)@[0], old(self)@[i]));
                    }
                }
            }
            let e = self.heap.remove(0);
            proof {
                assert(self@ =~= old(self)@.drop_first());
            }
            Some(e.2)
        }
    }

    /// Returns the number of items currently in the queue.
    pub fn len(&self) -> (n: usize)
        ensures
            n == self@.len(),
    {
        self.heap.len()
    }
}

/// In a well-formed queue an entry of smaller key stands ahead of an entry
/// of larger key, so it comes out first: lower priority values first, and
/// among equal priorities the earlier push position first.
pub proof fn lemma_smaller_key_comes_out_first<T: IPriority>(s: Seq<QueueEntry<T>>, i: int, j: int)
    requires
        entries_wf(s),
        0 <= i < s.len(),
        0 <= j < s.len(),
        entry_le(s[i], s[j]),
        !entry_le(s[j], s[i]),
    ensures
        i < j,
{
    if j < i {
        assert(entry_le(s[j], s[i]));
    }
}

/// Of two items of equal priority pushed one after the other (with no wrap of
/// the push counter in between), the one pushed first stands ahead of the
/// other, so it comes out first.
pub proof fn lemma_equal_priority_first_in_first_out<T: IPriority>(
    s: Seq<QueueEntry<T>>,
    counter: usize,
    first: T,
    second: T,
)
    requires
        entries_wf(s),
        counter < usize::MAX,
        first.spec_priority() == second.spec_priority(),
    ensures
        ({
            let s1 = entries_after_push(s, counter, first);
            let s2 = entries_after_push(s1, next_counter(counter), second);
            exists|i: int, j: int|
                0 <= i < j < s2.len() && s2[i] == (first.spec_priority(), counter, first) && s2[j]
                    == (second.spec_priority(), next_counter(counter), second)
        }),
{
    let p = first.spec_priority();
    let ea = (p, counter, first);
    let eb = (p, next_counter(counter), second);
    let i1 = insertion_index(s, p, counter);
    lemma_insertion_index_bounds(s, p, counter);
    let s1 = s.insert(i1, ea);
    s.insert_ensures(i1, ea);
    let i2 = insertion_index(s1, p, next_counter(counter));
    lemma_insertion_index_bounds(s1, p, next_counter(counter));
    assert(key_le(s1[i1], p, next_counter(counter)));
    if i2 <= i1 {
        assert forall|k: int| 0 <= k <= i1 implies key_le(#[trigger] s1[k], p, next_counter(counter)) by {
            if k < i1 {
                assert(s1[k] == s[k]);
            }
        }
        assert(key_le(s1[i2], p, next_counter(counter)));
    }
    assert(i1 < i2);
    let s2 = s1.insert(i2, eb);
    s1.insert_ensures(i2, eb);
    assert(s2[i1] == ea);
    assert(s2[i2] == eb);
    assert(s1 == entries_after_push(s, counter, first));
    assert(s2 == entries_after_push(s1, next_counter(counter), second));
    assert(0 <= i1 < i2 < s2.len() && s2[i1] == ea && s2[i2] == eb);
}

/// The number of pushes among `ops`, where `Some(x)` pushes `x` and `None`
/// pops.
pub open spec fn count_pushes<T>(ops: Seq<Option<T>>) -> nat
    decreases ops.len(),
{
    if ops.len() == 0 {
        0
    } else {
        (if ops[0] is Some { 1nat } else { 0nat }) + count_pushes(ops.drop_first())
    }
}

/// The number of pops among `ops` that find an entry, on a queue that starts
/// with `len` entries.
pub open spec fn count_successful_pops<T>(len: nat, ops: Seq<Option<T>>) -> nat
    decreases ops.len(),
{
    if ops.len() == 0 {
        0
    } else if ops[0] is Some {
        count_successful_pops(len + 1, ops.drop_first())
    } else if len > 0 {
        1 + count_successful_pops((len - 1) as nat, ops.drop_first())
    } else {
        count_successful_pops(0, ops.drop_first())
    }
}

/// The entries of a priority queue after a run of operations, as `push`
/// (`Some(x)`) and `pop` (`None`) leave them, with the push counter.
pub open spec fn entries_after_ops<T: IPriority>(
    s: Seq<QueueEntry<T>>,
    counter: usize,
    ops: Seq<Option<T>>,
) -> (Seq<QueueEntry<T>>, usize)
    decreases ops.len(),
{
    if ops.len() == 0 {
        (s, counter)
    } else {
        match ops[0] {
            Some(x) => entries_after_ops(entries_after_push(s, counter, x), next_counter(counter), ops.drop_first()),
            None => entries_after_ops(
                if s.len() > 0 { s.drop_first() } else { s },
                counter,
                ops.drop_first(),
            ),
        }
    }
}

/// After any run of pushes and pops, a priority queue holds as many entries as
/// it started with, plus the pushes, minus the pops that returned an item.
pub proof fn lemma_length_after_ops<T: IPriority>(s: Seq<QueueEntry<T>>, counter: usize, ops: Seq<Option<T>>)
    ensures
        entries_after_ops(s, counter, ops).0.len() + count_successful_pops(s.len(), ops) == s.len()
            + count_pushes(ops),
    decreases ops.len(),
{
    if ops.len() > 0 {
        match ops[0] {
            Some(x) => {
                lemma_entries_after_push_len(s, counter, x);
                lemma_length_after_ops(entries_after_push(s, counter, x), next_counter(counter), ops.drop_first());
            },
            None => {
                let s1 = if s.len() > 0 { s.drop_first() } else { s };
                lemma_length_after_ops(s1, counter, ops.drop_first());
            },
        }
    }
}

/// A well-formed queue holds its entries in nondecreasing priority value, and
/// entries of equal priority value in increasing push position; so the entry
/// that comes out first has the lowest priority value of all.
pub proof fn lemma_queue_order_in_numbers<T: IPriority>(s: Seq<QueueEntry<T>>)
    requires
        entries_wf(s),
    ensures
        forall|i: int, j: int|
            0 <= i < j < s.len() ==> (#[trigger] s[i]).0.0 <= (#[trigger] s[j]).0.0,
        forall|i: int, j: int|
            0 <= i < j < s.len() && (#[trigger] s[i]).0.0 == (#[trigger] s[j]).0.0 ==> s[i].1 <= s[j].1,
        s.len() > 0 ==> forall|j: int| 0 <= j < s.len() ==> s[0].0.0 <= (#[trigger] s[j]).0.0,
        forall|i: int| 0 <= i < s.len() ==> (#[trigger] s[i]).0 == s[i].2.spec_priority(),
{
    assert forall|i: int, j: int| 0 <= i < j < s.len() implies (#[trigger] s[i]).0.0 <= (
    #[trigger] s[j]).0.0 by {
        assert(entry_le(s[i], s[j]));
    }
    assert forall|j: int| 0 <= j < s.len() implies s[0].0.0 <= (#[trigger] s[j]).0.0 by {
        if j > 0 {
            assert(entry_le(s[0], s[j]));
        }
    }
}

/// Each push advances the push counter by one, wrapping around to zero after
/// `usize::MAX`.
pub proof fn lemma_counter_counts_pushes(c: usize)
    ensures
        c < usize::MAX ==> next_counter(c) == c + 1,
        c == usize::MAX ==> next_counter(c) == 0,
{
}

} // verus!
