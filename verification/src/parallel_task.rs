//! The pull-model bulk operation: rather than pushing batches at workers,
//! every consumer pulls the next position from a shared counter and
//! applies the function itself. A simpler rival to the push engine for
//! jobs where stealing buys nothing; the verified form computes the same
//! results serially, and the runtime shell shares the counter across
//! threads.

use vstd::prelude::*;
use crate::collector::Collector;
use crate::iterator::{ParallelIter, ParallelIterator};

verus! {

/// Binds `.parallel_task(f)` to any positionally accessible collection.
pub trait ParallelTaskIter<'a, I, V, F, T>: ParallelIter<Item = V> + Sized where F: Fn(&V) -> T {
    fn parallel_task(&'a self, f: F) -> (r: ParallelTask<'a, F, Self>)
        ensures
            r.f == f,
            r.iter.iter.source() == self,
            r.iter.iter.cursor() == 0,
    ;
}

impl<'a, I, V, F, T> ParallelTaskIter<'a, I, V, F, T> for I where
    I: ParallelIter<Item = V>,
    F: Fn(&V) -> T,
 {
    fn parallel_task(&'a self, f: F) -> (r: ParallelTask<'a, F, I>) {
        ParallelTask::new(self, f)
    }
}

/// The position queue of a pull-model job.
pub struct TaskQueue<'a, I> {
    pub iter: ParallelIterator<'a, I>,
}

impl<'a, I: ParallelIter> TaskQueue<'a, I> {
    /// Pops a unique value from the queue; none tells the consumers to
    /// finish.
    pub fn pop(&mut self) -> (r: Option<&'a I::Item>)
        ensures
            final(self).iter.source() == old(self).iter.source(),
            (old(self).iter.cursor() as int) < old(self).iter.source().items().len() ==> (
            r matches Some(p) && *p == old(self).iter.source().items()[old(self).iter.cursor() as int] && (old(self).iter.cursor() < usize::MAX ==> final(self).iter.cursor() == old(
                self,
            ).iter.cursor() + 1)),
            (old(self).iter.cursor() as int) >= old(self).iter.source().items().len() ==> (
            r is None),
            r is None ==> final(self).iter.cursor() == old(self).iter.cursor(),
    {
        self.iter.atomic_next()
    }
}

/// A pull-model job ready to run: the position queue, the user function
/// and the worker cap.
pub struct ParallelTask<'a, F, I> {
    pub iter: TaskQueue<'a, I>,
    pub f: F,
    pub num_threads: usize,
}

impl<'a, F, V, T, I> ParallelTask<'a, F, I> where F: Fn(&V) -> T, I: ParallelIter<Item = V> {
    /// The function accepts a reference to every item at or past the
    /// cursor.
    pub open spec fn source_ok(&self) -> bool {
        forall|k: int|
            0 <= k < self.iter.iter.source().items().len() ==> call_requires(
                self.f,
                (&self.iter.iter.source().items()[k],),
            )
    }

    pub fn new(iter: &'a I, f: F) -> (r: Self)
        ensures
            r.f == f,
            r.iter.iter.source() == iter,
            r.iter.iter.cursor() == 0,
            r.num_threads as int == crate::utils::DEFAULT_THREADS_NUM
                * crate::utils::CPU_2_THREAD_RATIO,
    {
        ParallelTask {
            iter: TaskQueue { iter: iter.parallel_iter() },
            f,
            num_threads: crate::utils::max_threads(),
        }
    }

    /// Sets the worker cap, capped by the library's ceiling; a later call
    /// overrides an earlier one.
    pub fn threads(self, nthreads: usize) -> (r: Self)
        ensures
            r.f == self.f,
            r.iter.iter == self.iter.iter,
            r.num_threads == crate::map::capped_threads(nthreads),
    {
        let ceiling = crate::utils::max_threads();
        let capped = if ceiling < nthreads {
            ceiling
        } else {
            nthreads
        };
        ParallelTask { iter: self.iter, f: self.f, num_threads: capped }
    }

    /// Applies the function to each item from the cursor on, in position
    /// order, and gathers the outputs: one output per item, each a result
    /// of the function on a reference to its item.
    pub fn collect<C>(self) -> (r: C) where C: Collector<T>
        requires
            self.source_ok(),
            self.iter.iter.cursor() as int <= self.iter.iter.source().items().len(),
            self.iter.iter.source().items().len() <= usize::MAX,
        ensures
            exists|outs: Seq<T>|
                #![trigger outs.to_multiset()]
                {
                    let items = self.iter.iter.source().items();
                    let start = self.iter.iter.cursor() as int;
                    &&& outs.len() == items.len() - start
                    &&& r.contents() == outs.to_multiset()
                    &&& forall|i: int|
                        0 <= i < outs.len() ==> call_ensures(
                            self.f,
                            (&items[start + i],),
                            #[trigger] outs[i],
                        )
                },
    {
        let mut this = self;
        let ghost items = this.iter.iter.source().items();
        let ghost start = this.iter.iter.cursor() as int;
        let mut gathered: Vec<T> = Vec::new();
        let mut active = true;
        while active
            invariant
                this.f == self.f,
                this.iter.iter.source() == self.iter.iter.source(),
                this.source_ok(),
                start <= this.iter.iter.cursor() as int <= items.len(),
                items.len() <= usize::MAX,
                items == this.iter.iter.source().items(),
                start == self.iter.iter.cursor() as int,
                gathered@.len() == this.iter.iter.cursor() as int - start,
                forall|i: int|
                    0 <= i < gathered@.len() ==> call_ensures(
                        this.f,
                        (&items[start + i],),
                        #[trigger] gathered@[i],
                    ),
                !active ==> this.iter.iter.cursor() as int == items.len(),
            decreases items.len() - this.iter.iter.cursor() + (if active {
                1int
            } else {
                0int
            }),
        {
            let popped = this.iter.pop();
            match popped {
                Some(value) => {
                    let out = (this.f)(value);
                    gathered.push(out);
                },
                None => {
                    active = false;
                },
            }
        }
        let mut results: C = C::initialize();
        results.extend_items(gathered);
        results
    }
}

} // verus!
