//! The side-effecting bulk operation: `for_each` applies a shared user
//! function to every item of the source and keeps nothing. The contract
//! promises one invocation per source item.

use vstd::prelude::*;
use crate::iterators::iterator::AtomicIterator;
use crate::task_queue::TaskQueue;
use crate::worker_thread::WorkerThreads;

verus! {

/// The builder `.threads(n)` leaves behind.
pub open spec fn for_each_threads_result<F, I>(m: ParallelForEach<F, I>, n: usize) -> ParallelForEach<F, I> {
    ParallelForEach { num_threads: crate::map::capped_threads(n), ..m }
}

/// Setting the worker cap twice uses the last value.
pub proof fn lemma_for_each_threads_last_value_wins<F, I>(
    m: ParallelForEach<F, I>,
    first: usize,
    last: usize,
)
    ensures
        for_each_threads_result(for_each_threads_result(m, first), last)
            == for_each_threads_result(m, last),
{
}

/// Binds `.for_each(f)` to any source whose iterator handle dispenses
/// items.
pub trait ParallelForEachIter<I, V, F>: AtomicIterator<AtomicItem = V> + Sized where F: Fn(V) {
    fn for_each(self, f: F)
        requires
            forall|i: int|
                0 <= i < self.remaining().len() ==> call_requires(
                    f,
                    (#[trigger] self.remaining()[i],),
                ),
        ensures
            exists|ins: Seq<V>|
                #![trigger ins.to_multiset()]
                {
                    &&& ins.to_multiset() == self.remaining().to_multiset()
                    &&& forall|i: int|
                        0 <= i < ins.len() ==> #[trigger] call_ensures(f, (ins[i],), ())
                },
    ;
}

impl<I, V, F> ParallelForEachIter<I, V, F> for I where
    I: AtomicIterator<AtomicItem = V>,
    F: Fn(V),
 {
    fn for_each(self, f: F) {
        ParallelForEach::new(self, f).run()
    }
}

/// A for-each job ready to run: the source's dispenser, the user function
/// and the worker cap.
pub struct ParallelForEach<F, I> {
    pub iter: TaskQueue<I>,
    pub f: F,
    pub num_threads: usize,
}

impl<F, V, I> ParallelForEach<F, I> where F: Fn(V), I: AtomicIterator<AtomicItem = V> {
    /// Every item the source will dispense may be handed to the user
    /// function.
    pub open spec fn source_ok(&self) -> bool {
        forall|i: int|
            0 <= i < self.iter.iter.remaining().len() ==> call_requires(
                self.f,
                (#[trigger] self.iter.iter.remaining()[i],),
            )
    }

    pub fn new(iter: I, f: F) -> (r: Self)
        ensures
            r.f == f,
            r.iter.iter == iter,
            r.num_threads as int == crate::utils::DEFAULT_THREADS_NUM
                * crate::utils::CPU_2_THREAD_RATIO,
    {
        ParallelForEach { iter: TaskQueue { iter }, f, num_threads: crate::utils::max_threads() }
    }

    /// Sets the worker cap, capped by the library's ceiling; a later call
    /// overrides an earlier one.
    pub fn threads(self, nthreads: usize) -> (r: Self)
        ensures
            r == for_each_threads_result(self, nthreads),
    {
        let ceiling = crate::utils::max_threads();
        let capped = if ceiling < nthreads {
            ceiling
        } else {
            nthreads
        };
        ParallelForEach { iter: self.iter, f: self.f, num_threads: capped }
    }

    /// Runs the job: the user function is invoked exactly once per source
    /// item, each invocation on a distinct item of the source.
    pub fn run(self)
        requires
            self.source_ok(),
        ensures
            exists|ins: Seq<V>|
                #![trigger ins.to_multiset()]
                {
                    &&& ins.to_multiset() == self.iter.iter.remaining().to_multiset()
                    &&& forall|i: int|
                        0 <= i < ins.len() ==> #[trigger] call_ensures(self.f, (ins[i],), ())
                },
    {
        let num_threads = self.num_threads;
        WorkerThreads { nthreads: num_threads }.run(self)
    }
}

} // verus!
