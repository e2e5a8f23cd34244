//! The transforming bulk operation: `map` binds a user function to a
//! source's iterator handle, and `collect` runs the job through the
//! worker controller, gathering every output. Output order is
//! unspecified; the contract speaks in multisets.

use vstd::prelude::*;
use crate::collector::Collector;
use crate::iterators::iterator::AtomicIterator;
use crate::push_workers::worker_thread::pairs_valid;
use crate::task_queue::TaskQueue;
use crate::worker_thread::WorkerThreads;

verus! {

/// What `.threads(n)` leaves as the pool size: the requested count, capped
/// by the library's ceiling.
pub open spec fn capped_threads(n: usize) -> usize {
    if (n as int) < crate::utils::DEFAULT_THREADS_NUM * crate::utils::CPU_2_THREAD_RATIO {
        n
    } else {
        (crate::utils::DEFAULT_THREADS_NUM * crate::utils::CPU_2_THREAD_RATIO) as usize
    }
}

/// The builder `.threads(n)` leaves behind.
pub open spec fn threads_result<F, I>(m: ParallelMap<F, I>, n: usize) -> ParallelMap<F, I> {
    ParallelMap { num_threads: capped_threads(n), ..m }
}

/// Setting the worker cap twice uses the last value: a second `.threads`
/// call erases whatever the first one chose.
pub proof fn lemma_threads_last_value_wins<F, I>(m: ParallelMap<F, I>, first: usize, last: usize)
    ensures
        threads_result(threads_result(m, first), last) == threads_result(m, last),
{
}

/// Mapping with an identity function yields a permutation of the input:
/// when every result the function can produce equals its argument, a
/// job's outputs carry the same multiset as its inputs.
pub proof fn lemma_identity_map_permutation<V, F: Fn(V) -> V>(f: F, ins: Seq<V>, outs: Seq<V>)
    requires
        pairs_valid(f, ins, outs),
        forall|v: V, r: V| #[trigger] call_ensures(f, (v,), r) ==> r == v,
    ensures
        outs.to_multiset() == ins.to_multiset(),
{
    assert forall|i: int| 0 <= i < outs.len() implies outs[i] == ins[i] by {
        assert(call_ensures(f, (ins[i],), outs[i]));
    }
    assert(outs =~= ins);
}

/// Binds `.map(f)` to any source whose iterator handle dispenses items.
pub trait ParallelMapIter<I, V, F, T>: AtomicIterator<AtomicItem = V> + Sized where F: Fn(
    V,
) -> T {
    fn map(self, f: F) -> (r: ParallelMap<F, Self>)
        ensures
            r.f == f,
            r.iter.iter == self,
            r.num_threads as int == crate::utils::DEFAULT_THREADS_NUM
                * crate::utils::CPU_2_THREAD_RATIO,
    ;
}

impl<I, V, F, T> ParallelMapIter<I, V, F, T> for I where
    I: AtomicIterator<AtomicItem = V>,
    F: Fn(V) -> T,
 {
    fn map(self, f: F) -> (r: ParallelMap<F, I>) {
        ParallelMap::new(self, f)
    }
}

/// A map job ready to run: the source's dispenser, the user function and
/// the worker cap.
pub struct ParallelMap<F, I> {
    pub iter: TaskQueue<I>,
    pub f: F,
    pub num_threads: usize,
}

impl<F, V, T, I> ParallelMap<F, I> where F: Fn(V) -> T, I: AtomicIterator<AtomicItem = V> {
    /// Every item the source will dispense may be handed to the user
    /// function.
    pub open spec fn source_ok(&self) -> bool {
        forall|i: int|
            0 <= i < self.iter.iter.remaining().len() ==> call_requires(
                self.f,
                (#[trigger] self.iter.iter.remaining()[i],),
            )
    }

    pub fn new(iter: I, f: F) -> (r: Self)
        ensures
            r.f == f,
            r.iter.iter == iter,
            r.num_threads as int == crate::utils::DEFAULT_THREADS_NUM
                * crate::utils::CPU_2_THREAD_RATIO,
    {
        ParallelMap { iter: TaskQueue { iter }, f, num_threads: crate::utils::max_threads() }
    }

    /// Sets the worker cap, capped by the library's ceiling; a later call
    /// overrides an earlier one.
    pub fn threads(self, nthreads: usize) -> (r: Self)
        ensures
            r == threads_result(self, nthreads),
    {
        let ceiling = crate::utils::max_threads();
        let capped = if ceiling < nthreads {
            ceiling
        } else {
            nthreads
        };
        ParallelMap { iter: self.iter, f: self.f, num_threads: capped }
    }

    /// Runs the job and gathers the outputs: the collector ends up with
    /// exactly one output for each source item, each output a result of
    /// the user function on its item — a permutation of the mapped
    /// source.
    pub fn collect<C>(self) -> (r: C) where C: Collector<T>
        requires
            self.source_ok(),
        ensures
            exists|ins: Seq<V>, outs: Seq<T>|
                #![auto]
                {
                    &&& pairs_valid(self.f, ins, outs)
                    &&& ins.to_multiset() == self.iter.iter.remaining().to_multiset()
                    &&& r.contents() == outs.to_multiset()
                },
            r.contents().len() == self.iter.iter.remaining().len(),
    {
        let num_threads = self.num_threads;
        WorkerThreads { nthreads: num_threads }.collect(self)
    }
}

} // verus!
