//! Dispensers for contiguous arrays: by value and by reference. Both
//! reserve work in bounded chunks sized at construction.

use vstd::prelude::*;
use vstd::multiset::Multiset;
use vstd::seq_lib::group_to_multiset_ensures;
use vstd::seq_lib::lemma_multiset_commutative;
use crate::iterators::iterator::{chunk_size_for, refs_of, spec_chunk_size, DiscreteQueue};

verus! {

/// By-value dispenser over an owned vector. Items leave from the hot end
/// of the buffer so a reservation is constant-time.
pub struct FetchDirect<T> {
    vec: Vec<T>,
    queue_size: usize,
    len: usize,
}

impl<T> FetchDirect<T> {
    pub fn new(vec: Vec<T>) -> (r: Self)
        ensures
            r.remaining() == vec@,
            r.chunk_target() == spec_chunk_size(vec@.len()),
            r.known_len() == Some(vec@.len() as usize),
    {
        let optimal_q_size = chunk_size_for(vec.len());
        let len = vec.len();
        FetchDirect { vec, queue_size: optimal_q_size, len }
    }
}

impl<T> DiscreteQueue for FetchDirect<T> {
    type Output = T;

    closed spec fn remaining(&self) -> Seq<T> {
        self.vec@
    }

    closed spec fn chunk_target(&self) -> nat {
        self.queue_size as nat
    }

    closed spec fn known_len(&self) -> Option<usize> {
        Some(self.len)
    }

    fn pop(&mut self) -> (r: Option<T>) {
        proof {
            broadcast use group_to_multiset_ensures;

        }
        let r = self.vec.pop();
        proof {
            if old(self).vec@.len() > 0 {
                assert(old(self).vec@ =~= self.vec@.push(old(self).vec@.last()));
                assert(self.vec@.to_multiset().insert(old(self).vec@.last()) =~= old(
                    self,
                ).vec@.to_multiset());
            }
        }
        r
    }

    fn pull(&mut self) -> (r: Option<Vec<T>>) {
        let len = self.vec.len();
        let target = if self.queue_size == 0 {
            1usize
        } else {
            self.queue_size
        };
        let size = if len < target {
            len
        } else {
            target
        };
        if size == 0 {
            None
        } else {
            let ghost orig = self.vec@;
            let ghost qs = self.queue_size;
            let ghost kl = self.len;
            let mut chunk: Vec<T> = Vec::new();
            let mut i: usize = 0;
            proof {
                broadcast use group_to_multiset_ensures;

                assert(self.vec@ =~= orig.take(orig.len() - 0));
                assert forall|a: T| chunk@.to_multiset().count(a) == 0 by {
                    assert(!chunk@.contains(a));
                }
                assert(chunk@.to_multiset().add(self.vec@.to_multiset()) =~= orig.to_multiset());
            }
            while i < size
                invariant
                    i <= size,
                    size <= orig.len(),
                    1 <= size,
                    self.queue_size == qs,
                    self.len == kl,
                    self.vec@ == orig.take(orig.len() - i),
                    chunk@.len() == i,
                    chunk@.to_multiset().add(self.vec@.to_multiset()) =~= orig.to_multiset(),
                decreases size - i,
            {
                proof {
                    broadcast use group_to_multiset_ensures;

                    assert(self.vec@.len() == orig.len() - i);
                }
                let popped = self.vec.pop();
                match popped {
                    Some(x) => {
                        proof {
                            assert(orig.take(orig.len() - i) =~= self.vec@.push(x));
                            assert(orig.take(orig.len() - i).to_multiset() =~= self.vec@.to_multiset().insert(x));
                            assert(self.vec@ =~= orig.take(orig.len() - (i + 1)));
                        }
                        chunk.push(x);
                        proof {
                            assert(chunk@.to_multiset().add(self.vec@.to_multiset())
                                =~= orig.to_multiset());
                        }
                    },
                    None => {
                        proof {
                            assert(false);
                        }
                    },
                }
                i += 1;
            }
            proof {
                assert(self.vec@.to_multiset().add(chunk@.to_multiset()) =~= orig.to_multiset());
            }
            Some(chunk)
        }
    }

    fn is_active(&self) -> (r: bool) {
        !self.vec.is_empty()
    }

    fn len(&self) -> (r: Option<usize>) {
        Some(self.len)
    }
}

/// By-reference dispenser over a borrowed vector: hands out references in
/// source order, advancing a cursor.
pub struct FetchInDirect<'data, T> {
    vec: &'data Vec<T>,
    start: usize,
    queue_size: usize,
}

impl<'data, T> FetchInDirect<'data, T> {
    pub fn new(vec: &'data Vec<T>) -> (r: Self)
        ensures
            r.remaining() == refs_of(vec),
            r.chunk_target() == spec_chunk_size(vec@.len()),
    {
        let optimal_q_size = chunk_size_for(vec.len());
        let r = FetchInDirect { vec, start: 0usize, queue_size: optimal_q_size };
        proof {
            assert(r.remaining() =~= refs_of(vec));
        }
        r
    }

    /// The borrowed source's element count.
    pub closed spec fn source_len(&self) -> nat {
        self.vec@.len()
    }

    pub fn len(&self) -> (r: usize)
        ensures
            r == self.source_len(),
            Some(r) == self.known_len(),
    {
        self.vec.len()
    }
}

impl<'data, T> DiscreteQueue for FetchInDirect<'data, T> {
    type Output = &'data T;

    closed spec fn remaining(&self) -> Seq<&'data T> {
        if self.start <= self.vec@.len() {
            refs_of(self.vec).skip(self.start as int)
        } else {
            Seq::empty()
        }
    }

    closed spec fn chunk_target(&self) -> nat {
        self.queue_size as nat
    }

    closed spec fn known_len(&self) -> Option<usize> {
        Some(self.vec@.len() as usize)
    }

    fn pop(&mut self) -> (r: Option<&'data T>) {
        if self.start < self.vec.len() {
            let r = &self.vec[self.start];
            proof {
                broadcast use group_to_multiset_ensures;

                let before = old(self).remaining();
                assert(r == refs_of(self.vec)[self.start as int]);
                assert(before[0] == r);
                assert(before.contains(r));
                assert(before.remove(0) =~= refs_of(self.vec).skip(self.start as int + 1));
                assert(before.remove(0).to_multiset() =~= before.to_multiset().remove(r));
                assert(before.to_multiset().remove(r).insert(r) =~= before.to_multiset());
            }
            self.start = self.start + 1;
            Some(r)
        } else {
            None
        }
    }

    fn pull(&mut self) -> (r: Option<Vec<&'data T>>) {
        if self.start >= self.vec.len() {
            None
        } else {
            let rem = self.vec.len() - self.start;
            let target = if self.queue_size == 0 {
                1usize
            } else {
                self.queue_size
            };
            let size = if rem < target {
                rem
            } else {
                target
            };
            let ghost before = self.remaining();
            let mut chunk: Vec<&'data T> = Vec::new();
            let mut j: usize = 0;
            while j < size
                invariant
                    j <= size,
                    1 <= size,
                    self.start + size <= self.vec@.len(),
                    self.vec@.len() <= usize::MAX,
                    chunk@.len() == j,
                    chunk@ =~= refs_of(self.vec).subrange(
                        self.start as int,
                        self.start as int + j,
                    ),
                decreases size - j,
            {
                chunk.push(&self.vec[self.start + j]);
                proof {
                    assert(chunk@ =~= refs_of(self.vec).subrange(
                        self.start as int,
                        self.start as int + j + 1,
                    ));
                }
                j += 1;
            }
            proof {
                let after = refs_of(self.vec).skip(self.start as int + size as int);
                assert(before =~= chunk@ + after);
                lemma_multiset_commutative(chunk@, after);
                assert(after.to_multiset().add(chunk@.to_multiset()) =~= before.to_multiset());
            }
            self.start = self.start + size;
            Some(chunk)
        }
    }

    fn is_active(&self) -> (r: bool) {
        !self.vec.is_empty()
    }

    fn len(&self) -> (r: Option<usize>) {
        Some(self.len())
    }
}

} // verus!
