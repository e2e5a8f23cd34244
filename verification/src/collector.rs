//! Collector abstracts the containers a job's outputs can be gathered in.
//! A collector starts empty and absorbs batches of outputs; since output
//! order across workers is unspecified, its contract speaks of contents as
//! a multiset.

use vstd::prelude::*;
use vstd::multiset::Multiset;
use vstd::seq_lib::group_to_multiset_ensures;
use vstd::seq_lib::lemma_multiset_commutative;

verus! {

pub trait Collector<T>: Sized {
    /// What the container holds, with multiplicity and without order.
    spec fn contents(&self) -> Multiset<T>;

    /// A fresh, empty container.
    fn initialize() -> (r: Self)
        ensures
            r.contents() =~= Multiset::<T>::empty(),
    ;

    /// Absorbs one batch of outputs.
    fn extend_items(&mut self, items: Vec<T>)
        ensures
            final(self).contents() =~= old(self).contents().add(items@.to_multiset()),
    ;
}

impl<T> Collector<T> for Vec<T> {
    open spec fn contents(&self) -> Multiset<T> {
        self@.to_multiset()
    }

    fn initialize() -> (r: Self)
        ensures
            r.contents() =~= Multiset::<T>::empty(),
    {
        proof {
            broadcast use group_to_multiset_ensures;

        }
        Vec::new()
    }

    fn extend_items(&mut self, items: Vec<T>)
        ensures
            final(self).contents() =~= old(self).contents().add(items@.to_multiset()),
    {
        let mut items = items;
        proof {
            lemma_multiset_commutative(self@, items@);
        }
        self.append(&mut items);
    }
}

impl<T> Collector<T> for std::collections::VecDeque<T> {
    open spec fn contents(&self) -> Multiset<T> {
        self@.to_multiset()
    }

    fn initialize() -> (r: Self)
        ensures
            r.contents() =~= Multiset::<T>::empty(),
    {
        proof {
            broadcast use group_to_multiset_ensures;

        }
        std::collections::VecDeque::new()
    }

    fn extend_items(&mut self, items: Vec<T>)
        ensures
            final(self).contents() =~= old(self).contents().add(items@.to_multiset()),
    {
        let mut items = items;
        let ghost init_contents = self.contents();
        let ghost init_items = items@;
        while items.len() != 0
            invariant
                self.contents().add(items@.to_multiset()) =~= init_contents.add(
                    init_items.to_multiset(),
                ),
            decreases items@.len(),
        {
            let ghost before = items@;
            let popped = items.pop();
            match popped {
                Some(x) => {
                    proof {
                        broadcast use group_to_multiset_ensures;

                        assert(before =~= items@.push(x));
                    }
                    self.push_back(x);
                },
                None => {},
            }
        }
        proof {
            broadcast use group_to_multiset_ensures;

            assert(items@ =~= Seq::<T>::empty());
            assert forall|a: T| items@.to_multiset().count(a) == 0 by {
                assert(!items@.contains(a));
            }
            assert(items@.to_multiset() =~= Multiset::<T>::empty());
        }
    }
}

} // verus!
