//! A simpler pull-model iterator: consumers share one counter and each
//! fetch hands out the item at the next position, by reference. The
//! runtime shell shares the counter atomically across threads; here the
//! hand-out logic itself is checked.

use vstd::prelude::*;

verus! {

/// Positional access for the pull model: a collection that can hand out a
/// reference to the item at any position.
pub trait ParallelIter: Sized {
    type Item;

    /// The collection's items, in position order.
    spec fn items(&self) -> Seq<Self::Item>;

    fn parallel_iter(&self) -> (r: ParallelIterator<'_, Self>)
        ensures
            r.source() == self,
            r.cursor() == 0,
    ;

    fn atomic_get(&self, index: usize) -> (r: Option<&Self::Item>)
        ensures
            (index as int) < self.items().len() ==> (r matches Some(p) && *p == self.items()[
                index as int
            ]),
            (index as int) >= self.items().len() ==> r is None,
    ;
}

/// A pull-model handle: a borrowed collection and the shared position
/// counter.
pub struct ParallelIterator<'a, T> {
    item: &'a T,
    atomic_counter: usize,
}

/// Reserved consuming counterpart of the pull-model handle.
pub struct IntoParallelIterator<T> {
    pub item: T,
    pub atomic_counter: usize,
}

impl<T> ParallelIter for Vec<T> {
    type Item = T;

    open spec fn items(&self) -> Seq<T> {
        self@
    }

    fn parallel_iter(&self) -> (r: ParallelIterator<'_, Vec<T>>) {
        ParallelIterator { item: self, atomic_counter: 0 }
    }

    fn atomic_get(&self, index: usize) -> (r: Option<&T>) {
        if index < self.len() {
            Some(&self[index])
        } else {
            None
        }
    }
}

impl<'a, T> ParallelIterator<'a, T> {
    pub closed spec fn source(&self) -> &'a T {
        self.item
    }

    pub closed spec fn cursor(&self) -> usize {
        self.atomic_counter
    }
}

impl<'a, T: ParallelIter> ParallelIterator<'a, T> {
    /// Reserves the next position and hands out the item there; none once
    /// the positions are exhausted.
    pub fn atomic_next(&mut self) -> (r: Option<&'a T::Item>)
        ensures
            final(self).source() == old(self).source(),
            (old(self).cursor() as int) < old(self).source().items().len() ==> (r matches Some(p)
                && *p == old(self).source().items()[old(self).cursor() as int] && (old(
                self,
            ).cursor() < usize::MAX ==> final(self).cursor() == old(self).cursor() + 1)),
            (old(self).cursor() as int) >= old(self).source().items().len() ==> r is None,
            r is None ==> final(self).cursor() == old(self).cursor(),
    {
        let index = self.atomic_counter;
        let r = self.item.atomic_get(index);
        match r {
            Some(p) => {
                if self.atomic_counter < usize::MAX {
                    self.atomic_counter = self.atomic_counter + 1;
                }
                Some(p)
            },
            None => None,
        }
    }
}

} // verus!
