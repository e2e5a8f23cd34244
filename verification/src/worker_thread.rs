//! The bridge from the bulk operations to the push-based engine: a job's
//! function and dispenser are handed to a worker controller, which
//! distributes, rebalances and joins.

use vstd::prelude::*;
use crate::collector::Collector;
use crate::errors::WorkThreadError;
use crate::for_each::ParallelForEach;
use crate::iterators::iterator::AtomicIterator;
use crate::map::ParallelMap;
use crate::push_workers::worker_controller::WorkerController;
use crate::push_workers::worker_thread::pairs_valid;

verus! {

pub struct WorkerThreads {
    pub nthreads: usize,
}

impl WorkerThreads {
    /// Runs a map job to completion and gathers its outputs: the collector
    /// holds outputs paired one-to-one with a permutation of the source.
    pub fn collect<I, F, T, V, C>(self, task: ParallelMap<F, I>) -> (r: C) where
        I: AtomicIterator<AtomicItem = V>,
        F: Fn(V) -> T,
        C: Collector<T>,

        requires
            task.source_ok(),
        ensures
            exists|ins: Seq<V>, outs: Seq<T>|
                #![auto]
                {
                    &&& pairs_valid(task.f, ins, outs)
                    &&& ins.to_multiset() == task.iter.iter.remaining().to_multiset()
                    &&& r.contents() == outs.to_multiset()
                },
            r.contents().len() == task.iter.iter.remaining().len(),
    {
        let fnc = task.f;
        let q = task.iter.iter;
        let mut controller = WorkerController::new(fnc, q);
        controller.set_max_threads(self.nthreads);
        let finished: Result<C, WorkThreadError> = controller.run();
        match finished {
            Ok(res) => res,
            Err(_) => {
                proof {
                    assert(false);
                }
                C::initialize()
            },
        }
    }

    /// Runs a for-each job to completion: the function is invoked once per
    /// source item; nothing is kept.
    pub fn run<I, F, V>(self, task: ParallelForEach<F, I>) where
        I: AtomicIterator<AtomicItem = V>,
        F: Fn(V),

        requires
            task.source_ok(),
        ensures
            exists|ins: Seq<V>|
                #![trigger ins.to_multiset()]
                {
                    &&& ins.to_multiset() == task.iter.iter.remaining().to_multiset()
                    &&& forall|i: int|
                        0 <= i < ins.len() ==> #[trigger] call_ensures(task.f, (ins[i],), ())
                },
    {
        let fnc = task.f;
        let q = task.iter.iter;
        let mut controller = WorkerController::new(fnc, q);
        controller.set_max_threads(self.nthreads);
        let finished: Result<Vec<()>, WorkThreadError> = controller.run();
        match finished {
            Ok(_) => {
                proof {
                    let (ins, outs) = choose|ins: Seq<V>, outs: Seq<()>|
                        {
                            &&& pairs_valid(task.f, ins, outs)
                            &&& ins.to_multiset() == task.iter.iter.remaining().to_multiset()
                        };
                    assert forall|i: int| 0 <= i < ins.len() implies call_ensures(
                        task.f,
                        (#[trigger] ins[i],),
                        (),
                    ) by {
                        assert(outs[i] == ());
                    }
                }
            },
            Err(_) => {
                proof {
                    assert(false);
                }
            },
        }
    }
}

} // verus!
