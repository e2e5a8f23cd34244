//! TaskQueue holds the iterator handle that lets each enquiring worker
//! pop a value nobody else will see; none signals the workers to wind
//! down.

use vstd::prelude::*;
use crate::iterators::iterator::AtomicIterator;

verus! {

pub struct TaskQueue<I> {
    pub iter: I,
}

impl<I: AtomicIterator> TaskQueue<I> {
    /// Pops a value that no other consumer will receive; none once all
    /// values are gone, which tells the workers to finish.
    pub fn pop(&mut self) -> (r: Option<I::AtomicItem>)
        ensures
            (r is None) <==> old(self).iter.remaining().len() == 0,
            r is None ==> final(self).iter.remaining() == old(self).iter.remaining(),
            r matches Some(v) ==> final(self).iter.remaining().len() + 1 == old(
                self,
            ).iter.remaining().len() && final(self).iter.remaining().to_multiset().insert(v)
                == old(self).iter.remaining().to_multiset(),
    {
        self.iter.atomic_next()
    }
}

} // verus!
