//! The pool of ready workers: a bounded queue of worker numbers. A worker is
//! either waiting in the queue or lent to exactly one task.
use vstd::prelude::*;
use vstd::multiset::Multiset;
use vstd::pervasive::VecAdditionalExecFns;
use crossbeam::queue::ArrayQueue;

verus! {

broadcast use vstd::seq_lib::group_to_multiset_ensures;

#[verifier::external_type_specification]
#[verifier::external_body]
#[verifier::reject_recursive_types(T)]
pub struct ExArrayQueue<T>(ArrayQueue<T>);

/// The items of a queue, oldest first.
pub uninterp spec fn queue_items(q: ArrayQueue<usize>) -> Seq<usize>;

/// The number of items a queue was made to hold.
pub uninterp spec fn queue_capacity(q: ArrayQueue<usize>) -> nat;

/// Relies on `ArrayQueue::new`: an empty queue for `cap` items. It panics
/// when `cap` is zero or too large to size its internal laps.
#[verifier::external_body]
fn new_queue(cap: usize) -> (q: ArrayQueue<usize>)
    requires
        0 < cap <= usize::MAX / 2,
    ensures
        queue_items(q) == Seq::<usize>::empty(),
        queue_capacity(q) == cap,
{
    ArrayQueue::new(cap)
}

/// Relies on `ArrayQueue::push_mut`: appends the item unless the queue is
/// full, in which case the item comes back.
#[verifier::external_body]
fn queue_push(q: &mut ArrayQueue<usize>, value: usize) -> (r: Result<(), usize>)
    ensures
        queue_capacity(*final(q)) == queue_capacity(*old(q)),
        queue_items(*old(q)).len() < queue_capacity(*old(q)) ==> {
            &&& r is Ok
            &&& queue_items(*final(q)) == queue_items(*old(q)).push(value)
        },
        queue_items(*old(q)).len() >= queue_capacity(*old(q)) ==> {
            &&& r == Err::<(), usize>(value)
            &&& queue_items(*final(q)) == queue_items(*old(q))
        },
{
    q.push_mut(value)
}

/// Relies on `ArrayQueue::pop_mut`: removes and returns the oldest item, or
/// `None` when the queue is empty.
#[verifier::external_body]
fn queue_pop(q: &mut ArrayQueue<usize>) -> (r: Option<usize>)
    ensures
        queue_capacity(*final(q)) == queue_capacity(*old(q)),
        queue_items(*old(q)).len() > 0 ==> {
            &&& r == Some(queue_items(*old(q))[0])
            &&& queue_items(*final(q)) == queue_items(*old(q)).drop_first()
        },
        queue_items(*old(q)).len() == 0 ==> {
            &&& r is None
            &&& queue_items(*final(q)) == queue_items(*old(q))
        },
{
    q.pop_mut()
}

/// The workers below `k` that are not lent.
pub open spec fn free_ids(lent: Seq<bool>, k: nat) -> Multiset<usize>
    decreases k,
{
    if k == 0 {
        Multiset::empty()
    } else if !lent[k - 1] {
        free_ids(lent, (k - 1) as nat).insert((k - 1) as usize)
    } else {
        free_ids(lent, (k - 1) as nat)
    }
}

/// The workers below `k` that are lent.
pub open spec fn lent_ids(lent: Seq<bool>, k: nat) -> Multiset<usize>
    decreases k,
{
    if k == 0 {
        Multiset::empty()
    } else if lent[k - 1] {
        lent_ids(lent, (k - 1) as nat).insert((k - 1) as usize)
    } else {
        lent_ids(lent, (k - 1) as nat)
    }
}

proof fn lemma_ids_count(lent: Seq<bool>, k: nat, i: usize)
    requires
        k <= lent.len() <= usize::MAX,
    ensures
        free_ids(lent, k).count(i) == (if i < k && !lent[i as int] { 1nat } else { 0nat }),
        lent_ids(lent, k).count(i) == (if i < k && lent[i as int] { 1nat } else { 0nat }),
    decreases k,
{
    if k > 0 {
        lemma_ids_count(lent, (k - 1) as nat, i);
    }
}

proof fn lemma_ids_len(lent: Seq<bool>, k: nat)
    requires
        k <= lent.len(),
    ensures
        free_ids(lent, k).len() + lent_ids(lent, k).len() == k,
    decreases k,
{
    if k > 0 {
        lemma_ids_len(lent, (k - 1) as nat);
    }
}

/// A fixed population of workers, numbered from 0, each either waiting in
/// the queue or lent to a task.
#[derive(Debug)]
pub struct ServerPool {
    queue: ArrayQueue<usize>,
    lent: Vec<bool>,
}

impl ServerPool {
    /// The waiting workers, next to be lent first.
    pub closed spec fn available(&self) -> Seq<usize> {
        queue_items(self.queue)
    }

    /// Which workers are lent.
    pub closed spec fn lent_flags(&self) -> Seq<bool> {
        self.lent@
    }

    pub closed spec fn capacity(&self) -> nat {
        queue_capacity(self.queue)
    }

    /// The number of workers.
    pub open spec fn size(&self) -> nat {
        self.lent_flags().len()
    }

    /// The workers lent to tasks.
    pub open spec fn in_flight(&self) -> Multiset<usize> {
        lent_ids(self.lent_flags(), self.size())
    }

    /// The queue holds exactly the workers that are not lent, and has room
    /// for all of them.
    pub open spec fn wf(&self) -> bool {
        &&& 0 < self.size() <= u16::MAX
        &&& self.capacity() == self.size()
        &&& self.available().to_multiset() == free_ids(self.lent_flags(), self.size())
    }

    /// A pool of `workers` waiting workers, in order of their numbers.
    pub fn new(workers: u16) -> (r: Self)
        requires
            workers > 0,
        ensures
            r.wf(),
            r.size() == workers,
            r.available().len() == workers,
            forall|i: int| 0 <= i < workers ==> r.available()[i] == i,
            r.in_flight().len() == 0,
    {
        let n = workers as usize;
        let mut queue = new_queue(n);
        let mut lent: Vec<bool> = Vec::new();
        let mut i: usize = 0;
        while i < n
            invariant
                n == workers,
                i <= n,
                queue_capacity(queue) == n,
                lent@.len() == i,
                forall|j: int| 0 <= j < i ==> !lent@[j],
                queue_items(queue).len() == i,
                forall|j: int| 0 <= j < i ==> queue_items(queue)[j] == j,
                queue_items(queue).to_multiset() == free_ids(lent@, i as nat),
            decreases n - i,
        {
            let ghost before = queue_items(queue);
            let ghost flags = lent@;
            let pushed = queue_push(&mut queue, i);
            lent.push(false);
            proof {
                assert(pushed is Ok);
                assert forall|x: usize|
                    queue_items(queue).to_multiset().count(x) == free_ids(lent@, (i + 1) as nat).count(
                        x,
                    ) by {
                    lemma_ids_count(flags, i as nat, x);
                    lemma_ids_count(lent@, (i + 1) as nat, x);
                    if x < i {
                        assert(lent@[x as int] == flags[x as int]);
                    }
                }
                assert(queue_items(queue).to_multiset() =~= free_ids(lent@, (i + 1) as nat));
            }
            i = i + 1;
        }
        let r = ServerPool { queue, lent };
        proof {
            lemma_ids_len(lent@, n as nat);
        }
        r
    }

    /// Lends the worker that has waited longest, or `None` when every worker
    /// is lent.
    pub fn take(&mut self) -> (r: Option<usize>)
        requires
            old(self).wf(),
        ensures
            final(self).wf(),
            final(self).size() == old(self).size(),
            old(self).available().len() == 0 ==> {
                &&& r is None
                &&& final(self).available() == old(self).available()
                &&& final(self).in_flight() == old(self).in_flight()
            },
            old(self).available().len() > 0 ==> {
                &&& r == Some(old(self).available()[0])
                &&& final(self).available() == old(self).available().drop_first()
                &&& final(self).in_flight() == old(self).in_flight().insert(
                    old(self).available()[0],
                )
            },
    {
        let ghost items = queue_items(self.queue);
        let ghost flags = self.lent@;
        let ghost n = flags.len();
        match queue_pop(&mut self.queue) {
            Some(x) => {
                proof {
                    assert(items.contains(items[0]));
                    lemma_ids_count(flags, n, x);
                    assert(items.to_multiset().count(x) > 0);
                }
                self.lent.set(x, true);
                proof {
                    assert(items.remove(0) == items.drop_first());
                    assert forall|y: usize|
                        queue_items(self.queue).to_multiset().count(y) == free_ids(
                            self.lent@,
                            n,
                        ).count(y) by {
                        lemma_ids_count(flags, n, y);
                        lemma_ids_count(self.lent@, n, y);
                    }
                    assert(queue_items(self.queue).to_multiset() =~= free_ids(self.lent@, n));
                    assert forall|y: usize|
                        lent_ids(self.lent@, n).count(y) == lent_ids(flags, n).insert(x).count(
                            y,
                        ) by {
                        lemma_ids_count(flags, n, y);
                        lemma_ids_count(self.lent@, n, y);
                    }
                    assert(lent_ids(self.lent@, n) =~= lent_ids(flags, n).insert(x));
                }
                Some(x)
            },
            None => None,
        }
    }

    /// Takes a lent worker back into the queue. `false`, and nothing
    /// changes, when `id` is not a lent worker.
    pub fn give_back(&mut self, id: usize) -> (r: bool)
        requires
            old(self).wf(),
        ensures
            final(self).wf(),
            final(self).size() == old(self).size(),
            r == (id < old(self).size() && old(self).in_flight().count(id) > 0),
            r ==> {
                &&& final(self).available() == old(self).available().push(id)
                &&& final(self).in_flight() == old(self).in_flight().remove(id)
            },
            !r ==> {
                &&& final(self).available() == old(self).available()
                &&& final(self).in_flight() == old(self).in_flight()
            },
    {
        let ghost items = queue_items(self.queue);
        let ghost flags = self.lent@;
        let ghost n = flags.len();
        proof {
            lemma_ids_count(flags, n, id);
        }
        if id >= self.lent.len() || !self.lent[id] {
            return false;
        }
        proof {
            lemma_conservation(self);
            assert(lent_ids(flags, n).count(id) <= lent_ids(flags, n).len());
        }
        let pushed = queue_push(&mut self.queue, id);
        proof {
            assert(pushed is Ok);
        }
        self.lent.set(id, false);
        proof {
            assert forall|y: usize|
                queue_items(self.queue).to_multiset().count(y) == free_ids(self.lent@, n).count(
                    y,
                ) by {
                lemma_ids_count(flags, n, y);
                lemma_ids_count(self.lent@, n, y);
            }
            assert(queue_items(self.queue).to_multiset() =~= free_ids(self.lent@, n));
            assert forall|y: usize|
                lent_ids(self.lent@, n).count(y) == lent_ids(flags, n).remove(id).count(y) by {
                lemma_ids_count(flags, n, y);
                lemma_ids_count(self.lent@, n, y);
            }
            assert(lent_ids(self.lent@, n) =~= lent_ids(flags, n).remove(id));
        }
        true
    }
}

/// Every worker is either waiting in the pool or in flight, never both:
/// the waiting ones and the ones in flight add up to the population.
pub proof fn lemma_conservation(pool: &ServerPool)
    requires
        pool.wf(),
    ensures
        pool.available().len() + pool.in_flight().len() == pool.size(),
        forall|i: usize|
            pool.available().to_multiset().count(i) + #[trigger] pool.in_flight().count(i) == (if i
                < pool.size() {
                1nat
            } else {
                0nat
            }),
{
    lemma_ids_len(pool.lent_flags(), pool.size());
    assert forall|i: usize|
        pool.available().to_multiset().count(i) + #[trigger] pool.in_flight().count(i) == (if i
            < pool.size() {
            1nat
        } else {
            0nat
        }) by {
        lemma_ids_count(pool.lent_flags(), pool.size(), i);
    }
}

} // verus!
