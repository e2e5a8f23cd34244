//! A counted dispenser for sources that only enumerate sequentially —
//! associative tables and integer ranges. The enumeration is materialised
//! once; hand-out then serialises through this structure in bounded chunks.

use vstd::prelude::*;
use vstd::multiset::Multiset;
use vstd::seq_lib::group_to_multiset_ensures;
use crate::iterators::iterator::{chunk_size_for, spec_chunk_size, DiscreteQueue};

verus! {

/// Dispenser over a materialised enumeration of known size. The buffer is
/// held reversed so that handing out the front of the enumeration is a
/// constant-time removal from the hot end.
pub struct SizedQueue<T> {
    queue: Vec<T>,
    pull_size: usize,
    len: usize,
}

/// Reverses a vector by moving its items; the dispenser stores the source
/// enumeration back to front.
fn reverse_vec<T>(v: Vec<T>) -> (r: Vec<T>)
    ensures
        r@ == v@.reverse(),
{
    let mut v = v;
    let ghost orig = v@;
    let mut r: Vec<T> = Vec::new();
    proof {
        assert(v@ =~= orig.take(v@.len() as int));
    }
    while v.len() != 0
        invariant
            v@.len() + r@.len() == orig.len(),
            v@ == orig.take(v@.len() as int),
            forall|i: int| 0 <= i < r@.len() ==> r@[i] == orig[orig.len() - 1 - i],
        decreases v@.len(),
    {
        let ghost k = v@.len() as int;
        let popped = v.pop();
        match popped {
            Some(x) => {
                proof {
                    assert(x == orig.take(k)[k - 1]);
                    assert(x == orig[k - 1]);
                    assert(v@ =~= orig.take(k - 1));
                }
                r.push(x);
            },
            None => {},
        }
    }
    proof {
        assert(r@ =~= orig.reverse());
    }
    r
}

impl<T> SizedQueue<T> {
    /// Wraps a fully enumerated source of `len` items.
    pub fn new(queue: Vec<T>, len: usize) -> (r: Self)
        requires
            len == queue@.len(),
        ensures
            r.remaining() == queue@,
            r.chunk_target() == spec_chunk_size(queue@.len()),
            r.source_len() == len,
            r.known_len() == Some(len),
    {
        let ghost orig = queue@;
        let pull_size = chunk_size_for(len);
        let stored = reverse_vec(queue);
        let r = SizedQueue { queue: stored, pull_size, len };
        proof {
            assert(r.remaining() =~= orig);
        }
        r
    }

    /// The element count the source reported at construction.
    pub closed spec fn source_len(&self) -> usize {
        self.len
    }
}

impl<T> DiscreteQueue for SizedQueue<T> {
    type Output = T;

    closed spec fn remaining(&self) -> Seq<T> {
        self.queue@.reverse()
    }

    closed spec fn chunk_target(&self) -> nat {
        self.pull_size as nat
    }

    closed spec fn known_len(&self) -> Option<usize> {
        Some(self.len)
    }

    fn pop(&mut self) -> (r: Option<T>) {
        proof {
            broadcast use group_to_multiset_ensures;

        }
        let r = self.queue.pop();
        proof {
            if old(self).queue@.len() > 0 {
                let x = old(self).queue@.last();
                assert(old(self).queue@ =~= self.queue@.push(x));
                old(self).queue@.lemma_reverse_to_multiset();
                self.queue@.lemma_reverse_to_multiset();
                assert(self.queue@.to_multiset().insert(x) =~= old(self).queue@.to_multiset());
                assert(self.remaining().to_multiset().insert(x) =~= old(
                    self,
                ).remaining().to_multiset());
            }
        }
        r
    }

    fn pull(&mut self) -> (r: Option<Vec<T>>) {
        let len = self.queue.len();
        let target = if self.pull_size == 0 {
            1usize
        } else {
            self.pull_size
        };
        let size = if len < target {
            len
        } else {
            target
        };
        if size == 0 {
            None
        } else {
            let ghost orig = self.queue@;
            let ghost ps = self.pull_size;
            let ghost sl = self.len;
            let mut chunk: Vec<T> = Vec::new();
            let mut i: usize = 0;
            proof {
                broadcast use group_to_multiset_ensures;

                assert(self.queue@ =~= orig.take(orig.len() - 0));
                assert forall|a: T| chunk@.to_multiset().count(a) == 0 by {
                    assert(!chunk@.contains(a));
                }
                assert(chunk@.to_multiset().add(self.queue@.to_multiset())
                    =~= orig.to_multiset());
            }
            while i < size
                invariant
                    i <= size,
                    size <= orig.len(),
                    1 <= size,
                    self.pull_size == ps,
                    self.len == sl,
                    self.queue@ == orig.take(orig.len() - i),
                    chunk@.len() == i,
                    chunk@.to_multiset().add(self.queue@.to_multiset()) =~= orig.to_multiset(),
                decreases size - i,
            {
                proof {
                    broadcast use group_to_multiset_ensures;

                    assert(self.queue@.len() == orig.len() - i);
                }
                let popped = self.queue.pop();
                match popped {
                    Some(x) => {
                        proof {
                            assert(orig.take(orig.len() - i) =~= self.queue@.push(x));
                            assert(orig.take(orig.len() - i).to_multiset()
                                =~= self.queue@.to_multiset().insert(x));
                            assert(self.queue@ =~= orig.take(orig.len() - (i + 1)));
                        }
                        chunk.push(x);
                        proof {
                            assert(chunk@.to_multiset().add(self.queue@.to_multiset())
                                =~= orig.to_multiset());
                        }
                    },
                    None => {
                        proof {
                            assert(false);
                        }
                    },
                }
                i += 1;
            }
            proof {
                orig.lemma_reverse_to_multiset();
                self.queue@.lemma_reverse_to_multiset();
                assert(self.remaining().to_multiset().add(chunk@.to_multiset())
                    =~= orig.to_multiset());
            }
            Some(chunk)
        }
    }

    fn is_active(&self) -> (r: bool) {
        true
    }

    fn len(&self) -> (r: Option<usize>) {
        Some(self.len)
    }
}

} // verus!
