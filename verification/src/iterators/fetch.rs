//! Keyed single-item fetching, an earlier hand-out interface kept for
//! positional access to sources. The engine dispenses through
//! `DiscreteQueue`; this trait documents how a collection hands one item
//! out under a key, removing it so no key is served twice.

use vstd::prelude::*;

verus! {

pub trait Fetch: Sized {
    type FetchedItem;

    type FetchKey;

    /// The items available for fetching, in enumeration order.
    spec fn fetch_contents(&self) -> Seq<Self::FetchedItem>;

    /// The position a key addresses, where it addresses one.
    spec fn key_position(&self, key: Self::FetchKey) -> Option<int>;

    /// The keys under which items can be fetched; empty where keys are
    /// implicit positions.
    fn keys_vec(&self) -> Vec<Self::FetchKey>;

    /// Resolves an enumeration position to a fetch key.
    fn get_key<'b>(keys: &'b [Self::FetchKey], pos: &'b usize) -> Option<&'b Self::FetchKey>;

    /// Removes and returns the item stored under `index`, if the key
    /// addresses one.
    fn atomic_fetch(&mut self, index: &Self::FetchKey) -> (r: Option<Self::FetchedItem>)
        ensures
            match old(self).key_position(*index) {
                Some(p) => 0 <= p < old(self).fetch_contents().len() && r == Some(
                    old(self).fetch_contents()[p],
                ) && final(self).fetch_contents() == old(self).fetch_contents().remove(p),
                None => r is None && final(self).fetch_contents() == old(self).fetch_contents(),
            },
    ;
}

impl<T> Fetch for Vec<T> {
    type FetchedItem = T;

    type FetchKey = usize;

    open spec fn fetch_contents(&self) -> Seq<T> {
        self@
    }

    open spec fn key_position(&self, key: usize) -> Option<int> {
        if (key as int) < self@.len() {
            Some(key as int)
        } else {
            None
        }
    }

    fn keys_vec(&self) -> Vec<usize> {
        Vec::new()
    }

    fn get_key<'b>(_keys: &'b [usize], pos: &'b usize) -> Option<&'b usize> {
        Some(pos)
    }

    fn atomic_fetch(&mut self, index: &usize) -> (r: Option<T>) {
        if *index >= self.len() {
            return None;
        }
        Some(self.remove(*index))
    }
}

} // verus!
