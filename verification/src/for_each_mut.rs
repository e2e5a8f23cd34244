//! For-each over a mutably capturing function. A closure that mutates its
//! captures cannot be shared across workers, so this variant serialises:
//! items are pulled from the dispenser one by one and the function is
//! applied on the calling thread. It exists for completeness; in a
//! parallel engine it buys nothing.

use vstd::prelude::*;
use crate::iterators::iterator::AtomicIterator;
use crate::task_queue::TaskQueue;

verus! {

broadcast use vstd::seq_lib::group_to_multiset_ensures;

/// The builder `.threads(n)` leaves behind.
pub open spec fn for_each_mut_threads_result<F, I>(
    m: ParallelForEachMut<F, I>,
    n: usize,
) -> ParallelForEachMut<F, I> {
    ParallelForEachMut { num_threads: crate::map::capped_threads(n), ..m }
}

/// Binds `.for_each_mut(f)` to any source whose iterator handle dispenses
/// items.
pub trait ParallelForEachMutIter<I, V, F>: AtomicIterator<AtomicItem = V> + Sized where F: FnMut(
    V,
) {
    fn for_each_mut(self, f: F)
        requires
            forall|p: F, v: V|
                self.remaining().to_multiset().contains(v) ==> #[trigger] call_requires(
                    p,
                    (v,),
                ),
        ensures
            exists|ins: Seq<V>, states: Seq<F>|
                #![trigger ins.to_multiset(), states.len()]
                {
                    &&& ins.to_multiset() == self.remaining().to_multiset()
                    &&& states.len() == ins.len()
                    &&& forall|i: int|
                        0 <= i < ins.len() ==> #[trigger] call_ensures(states[i], (ins[i],), ())
                },
    ;
}

impl<I, V, F> ParallelForEachMutIter<I, V, F> for I where
    I: AtomicIterator<AtomicItem = V>,
    F: FnMut(V),
 {
    fn for_each_mut(self, f: F) {
        ParallelForEachMut::new(self, f).run()
    }
}

/// A serialised for-each job over a mutably capturing function.
pub struct ParallelForEachMut<F, I> {
    pub iter: TaskQueue<I>,
    pub f: F,
    pub num_threads: usize,
}

impl<F, V, I> ParallelForEachMut<F, I> where F: FnMut(V), I: AtomicIterator<AtomicItem = V> {
    /// The function accepts every item the source will dispense, whatever
    /// state its captures are in.
    pub open spec fn source_ok(&self) -> bool {
        forall|p: F, v: V|
            self.iter.iter.remaining().to_multiset().contains(v) ==> #[trigger] call_requires(
                p,
                (v,),
            )
    }

    pub fn new(iter: I, f: F) -> (r: Self)
        ensures
            r.f == f,
            r.iter.iter == iter,
            r.num_threads as int == crate::utils::DEFAULT_THREADS_NUM
                * crate::utils::CPU_2_THREAD_RATIO,
    {
        ParallelForEachMut {
            iter: TaskQueue { iter },
            f,
            num_threads: crate::utils::max_threads(),
        }
    }

    /// Sets the worker cap, capped by the library's ceiling; a later call
    /// overrides an earlier one. The serialised run ignores it.
    pub fn threads(self, nthreads: usize) -> (r: Self)
        ensures
            r == for_each_mut_threads_result(self, nthreads),
    {
        let ceiling = crate::utils::max_threads();
        let capped = if ceiling < nthreads {
            ceiling
        } else {
            nthreads
        };
        ParallelForEachMut { iter: self.iter, f: self.f, num_threads: capped }
    }

    /// Applies the function to every item of the source, one at a time, in
    /// the order the dispenser hands them out: it is invoked exactly once
    /// per source item — the recorded inputs are a permutation of the
    /// source — and each invocation's unit return is a possible result of
    /// some state of the function on its item.
    pub fn run(self)
        requires
            self.source_ok(),
        ensures
            exists|ins: Seq<V>, states: Seq<F>|
                #![trigger ins.to_multiset(), states.len()]
                {
                    &&& ins.to_multiset() == self.iter.iter.remaining().to_multiset()
                    &&& states.len() == ins.len()
                    &&& forall|i: int|
                        0 <= i < ins.len() ==> #[trigger] call_ensures(states[i], (ins[i],), ())
                },
    {
        let ParallelForEachMut { iter: mut queue, f: mut func, num_threads: _ } = self;
        let ghost orig = queue.iter.remaining().to_multiset();
        let ghost mut ins: Seq<V> = Seq::empty();
        let ghost mut states: Seq<F> = Seq::empty();
        proof {
            assert forall|a: V| ins.to_multiset().count(a) == 0 by {
                assert(!ins.contains(a));
            }
        }
        let mut active = true;
        while active
            invariant
                active ==> forall|p: F, v: V|
                    queue.iter.remaining().to_multiset().contains(v) ==> #[trigger] call_requires(
                        p,
                        (v,),
                    ),
                ins.to_multiset().add(queue.iter.remaining().to_multiset()) =~= orig,
                states.len() == ins.len(),
                forall|i: int|
                    0 <= i < ins.len() ==> #[trigger] call_ensures(states[i], (ins[i],), ()),
                !active ==> queue.iter.remaining().len() == 0,
            decreases queue.iter.remaining().len() + (if active {
                1int
            } else {
                0int
            }),
        {
            let ghost rem_before = queue.iter.remaining();
            let ghost ins_before = ins;
            let popped = queue.pop();
            match popped {
                Some(value) => {
                    proof {
                        assert(rem_before.to_multiset().contains(value)) by {
                            assert(queue.iter.remaining().to_multiset().insert(value)
                                == rem_before.to_multiset());
                        }
                        assert forall|p: F, v: V|
                            queue.iter.remaining().to_multiset().contains(v)
                                implies #[trigger] call_requires(p, (v,)) by {
                            assert(rem_before.to_multiset().contains(v)) by {
                                assert(queue.iter.remaining().to_multiset().insert(value)
                                    == rem_before.to_multiset());
                            }
                        }
                    }
                    let unit_out = func(value);
                    proof {
                        assert(unit_out == ());
                        let ghost states_before = states;
                        let p0 = choose|p: F| call_ensures(p, (value,), unit_out);
                        ins = ins.push(value);
                        states = states.push(p0);
                        assert(ins.drop_last() == ins_before && ins.last() == value);
                        assert(ins.to_multiset() =~= ins_before.to_multiset().insert(value)) by {
                            vstd::seq_lib::to_multiset_build(ins_before, value);
                        }
                        assert(ins.to_multiset().add(queue.iter.remaining().to_multiset())
                            =~= orig);
                        assert forall|i: int|
                            0 <= i < ins.len() implies #[trigger] call_ensures(
                            states[i],
                            (ins[i],),
                            (),
                        ) by {
                            if i < ins_before.len() {
                                assert(ins[i] == ins_before[i]);
                                assert(states[i] == states_before[i]);
                            } else {
                                assert(ins[i] == value);
                                assert(states[i] == p0);
                            }
                        }
                    }
                },
                None => {
                    active = false;
                },
            }
        }
        proof {
            assert forall|a: V|
                ins.to_multiset().count(a) == self.iter.iter.remaining().to_multiset().count(
                    a,
                ) by {
                assert(queue.iter.remaining().to_multiset().count(a) == 0) by {
                    assert(!queue.iter.remaining().contains(a));
                }
                assert(ins.to_multiset().add(queue.iter.remaining().to_multiset()).count(a)
                    == orig.count(a));
            }
            assert(ins.to_multiset() =~= self.iter.iter.remaining().to_multiset());
        }
    }
}

} // verus!
