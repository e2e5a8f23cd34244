use vstd::prelude::*;
use vstd::multiset::Multiset;

verus! {

/// Scaling constant for chunk sizing: a source splits into roughly this
/// many chunks.
pub const CHUNK_SPLIT: usize = 100;

/// Floor for the chunk size, so tiny sources do not degenerate into
/// one-item chunks.
pub const CHUNK_FLOOR: usize = 8;

/// The chunk size chosen for a source of `len` items.
pub open spec fn spec_chunk_size(len: nat) -> nat {
    if len / (CHUNK_SPLIT as nat) > (CHUNK_FLOOR as nat) {
        len / (CHUNK_SPLIT as nat)
    } else {
        CHUNK_FLOOR as nat
    }
}

/// Computes `max(len / CHUNK_SPLIT, CHUNK_FLOOR)`, the chunk size for a
/// source of `len` items.
pub fn chunk_size_for(len: usize) -> (r: usize)
    ensures
        r == spec_chunk_size(len as nat),
        r >= 1,
{
    let split = len / CHUNK_SPLIT;
    if split > CHUNK_FLOOR {
        split
    } else {
        CHUNK_FLOOR
    }
}

/// The items of a vector, as references, in order.
pub open spec fn refs_of<'a, T>(v: &'a Vec<T>) -> Seq<&'a T> {
    Seq::new(v@.len(), |i: int| &v@[i])
}

/// A chunk dispenser: hands out the items of one source to many consumers,
/// singly or in bounded chunks, and reports exhaustion as none. `remaining`
/// is the model of what is still to be handed out; `chunk_target` bounds
/// the size of one pulled chunk.
pub trait DiscreteQueue: Sized {
    type Output;

    /// Items still to hand out.
    spec fn remaining(&self) -> Seq<Self::Output>;

    /// The size one pulled chunk aims for.
    spec fn chunk_target(&self) -> nat;

    /// The source's original element count, where the source knows it:
    /// fixed at construction, untouched by hand-outs.
    spec fn known_len(&self) -> Option<usize>;

    /// Hands out one item; none exactly when the source is exhausted.
    fn pop(&mut self) -> (r: Option<Self::Output>)
        ensures
            final(self).chunk_target() == old(self).chunk_target(),
            final(self).known_len() == old(self).known_len(),
            (r is None) <==> old(self).remaining().len() == 0,
            r is None ==> final(self).remaining() == old(self).remaining(),
            r matches Some(v) ==> final(self).remaining().len() + 1 == old(
                self,
            ).remaining().len() && final(self).remaining().to_multiset().insert(v) == old(
                self,
            ).remaining().to_multiset(),
    ;

    /// Hands out one non-empty chunk of at most `chunk_target` items (at
    /// least one even when the target degenerates); none exactly when the
    /// source is exhausted.
    fn pull(&mut self) -> (r: Option<Vec<Self::Output>>)
        ensures
            final(self).chunk_target() == old(self).chunk_target(),
            final(self).known_len() == old(self).known_len(),
            (r is None) <==> old(self).remaining().len() == 0,
            r is None ==> final(self).remaining() == old(self).remaining(),
            r matches Some(c) ==> c@.len() >= 1 && (c@.len() <= old(self).chunk_target() || c@.len()
                == 1) && final(self).remaining().len() + c@.len() == old(self).remaining().len()
                && final(self).remaining().to_multiset().add(c@.to_multiset()) == old(
                self,
            ).remaining().to_multiset(),
    ;

    /// Conservative liveness hint: may stay true after exhaustion, but a
    /// false answer means the source is drained.
    fn is_active(&self) -> (r: bool)
        ensures
            !r ==> self.remaining().len() == 0,
    ;

    /// Reports the source's original element count, where known.
    fn len(&self) -> (r: Option<usize>)
        ensures
            r == self.known_len(),
    ;
}

/// An iterator-like handle over a dispenser; what `map`, `for_each` and the
/// scheduler consume.
pub trait AtomicIterator: Sized {
    type AtomicItem;

    /// Items still to hand out.
    spec fn remaining(&self) -> Seq<Self::AtomicItem>;

    /// The size one pulled chunk aims for.
    spec fn chunk_target(&self) -> nat;

    /// The source's original element count, where the source knows it:
    /// fixed at construction, untouched by hand-outs.
    spec fn known_len(&self) -> Option<usize>;

    /// Hands out one item; none exactly when the source is exhausted.
    fn atomic_next(&mut self) -> (r: Option<Self::AtomicItem>)
        ensures
            final(self).chunk_target() == old(self).chunk_target(),
            final(self).known_len() == old(self).known_len(),
            (r is None) <==> old(self).remaining().len() == 0,
            r is None ==> final(self).remaining() == old(self).remaining(),
            r matches Some(v) ==> final(self).remaining().len() + 1 == old(
                self,
            ).remaining().len() && final(self).remaining().to_multiset().insert(v) == old(
                self,
            ).remaining().to_multiset(),
    ;

    /// Hands out one non-empty bounded chunk; none exactly when the source
    /// is exhausted.
    fn atomic_pull(&mut self) -> (r: Option<Vec<Self::AtomicItem>>)
        ensures
            final(self).chunk_target() == old(self).chunk_target(),
            final(self).known_len() == old(self).known_len(),
            (r is None) <==> old(self).remaining().len() == 0,
            r is None ==> final(self).remaining() == old(self).remaining(),
            r matches Some(c) ==> c@.len() >= 1 && (c@.len() <= old(self).chunk_target() || c@.len()
                == 1) && final(self).remaining().len() + c@.len() == old(self).remaining().len()
                && final(self).remaining().to_multiset().add(c@.to_multiset()) == old(
                self,
            ).remaining().to_multiset(),
    ;

    /// Reports the source's original element count, where known.
    fn len(&self) -> (r: Option<usize>)
        ensures
            r == self.known_len(),
    ;

    /// Tests whether the iterator may still have values available; a false
    /// answer means it is drained.
    fn is_active(&self) -> (r: bool)
        ensures
            !r ==> self.remaining().len() == 0,
    ;
}

/// The parallel counterpart of an iterator handle: a thin wrapper around a
/// dispenser.
pub struct ParallelIterator<DiscQ: DiscreteQueue> {
    pub iter: DiscQ,
}

impl<DiscQ: DiscreteQueue> ParallelIterator<DiscQ> {
    pub fn new(iter: DiscQ) -> (r: Self)
        ensures
            r.iter == iter,
    {
        ParallelIterator { iter }
    }
}

impl<DiscQ: DiscreteQueue> AtomicIterator for ParallelIterator<DiscQ> {
    type AtomicItem = DiscQ::Output;

    open spec fn remaining(&self) -> Seq<DiscQ::Output> {
        self.iter.remaining()
    }

    open spec fn chunk_target(&self) -> nat {
        self.iter.chunk_target()
    }

    open spec fn known_len(&self) -> Option<usize> {
        self.iter.known_len()
    }

    fn atomic_next(&mut self) -> (r: Option<DiscQ::Output>) {
        self.iter.pop()
    }

    fn atomic_pull(&mut self) -> (r: Option<Vec<DiscQ::Output>>) {
        self.iter.pull()
    }

    fn len(&self) -> (r: Option<usize>) {
        self.iter.len()
    }

    fn is_active(&self) -> (r: bool) {
        self.iter.is_active()
    }
}

/// Borrowing sources: collections that can hand out references to their
/// items through a dispenser. `ref_contents` is what the dispenser will
/// distribute — a multiset, since sources such as tables enumerate in no
/// fixed order — or none where the collection's model does not pin the
/// items down.
pub trait ParallelIter<'data, DiscQ, T>: Sized where DiscQ: DiscreteQueue<
    Output = Self::RefItem,
> {
    type RefItem;

    spec fn ref_contents(&'data self) -> Option<Multiset<Self::RefItem>>;

    fn parallel_iter(&'data self) -> (r: ParallelIterator<DiscQ>)
        ensures
            self.ref_contents() matches Some(ms) ==> r.remaining().to_multiset() == ms,
    ;
}

/// Consuming sources: collections that hand out their items by value
/// through a dispenser.
pub trait IntoParallelIter<'data, DiscQ, T>: Sized where DiscQ: DiscreteQueue<
    Output = Self::IntoItem,
> {
    type IntoItem;

    spec fn into_contents(&self) -> Option<Multiset<Self::IntoItem>>;

    fn into_parallel_iter(self) -> (r: ParallelIterator<DiscQ>)
        ensures
            self.into_contents() matches Some(ms) ==> r.remaining().to_multiset() == ms,
    ;
}

} // verus!
