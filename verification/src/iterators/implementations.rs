//! Adapters binding the source collections — vectors, hash tables and
//! integer ranges — to their dispensers.

use vstd::prelude::*;
use vstd::multiset::Multiset;
use std::collections::HashMap;
use crate::iterators::fetchdirect::{FetchDirect, FetchInDirect};
use crate::iterators::iterator::{refs_of, IntoParallelIter, ParallelIter, ParallelIterator};
use crate::iterators::queued::SizedQueue;

verus! {

impl<'data, T> ParallelIter<'data, FetchInDirect<'data, T>, T> for Vec<T> {
    type RefItem = &'data T;

    open spec fn ref_contents(&'data self) -> Option<Multiset<&'data T>> {
        Some(refs_of(self).to_multiset())
    }

    fn parallel_iter(&'data self) -> (r: ParallelIterator<FetchInDirect<'data, T>>) {
        ParallelIterator::new(FetchInDirect::new(self))
    }
}

impl<'data, T> IntoParallelIter<'data, FetchDirect<T>, T> for Vec<T> {
    type IntoItem = T;

    open spec fn into_contents(&self) -> Option<Multiset<T>> {
        Some(self@.to_multiset())
    }

    fn into_parallel_iter(self) -> (r: ParallelIterator<FetchDirect<T>>) {
        let iter = FetchDirect::new(self);
        ParallelIterator::new(iter)
    }
}

/// Relies on HashMap::into_iter: the enumeration visits exactly the
/// table's entries, once each, in no fixed order. The relation to the
/// table's view is axiomatised only for key types that obey the hashing
/// model, so it is claimed only there.
#[verifier::external_body]
fn hashmap_into_entries<K, V>(m: HashMap<K, V>) -> (r: Vec<(K, V)>)
    ensures
        vstd::std_specs::hash::obeys_key_model::<K>() ==> r@.to_multiset()
            == m@.kv_pairs().to_multiset(),
{
    let mut out: Vec<(K, V)> = Vec::new();
    for e in m {
        out.push(e);
    }
    out
}


/// Relies on HashMap::iter: the enumeration visits exactly the table's
/// entries, once each, in no fixed order, handing out references. The
/// relation to the table's view is axiomatised only for key types that
/// obey the hashing model, so it is claimed only there.
#[verifier::external_body]
fn hashmap_entry_refs<'a, K, V>(m: &'a HashMap<K, V>) -> (r: Vec<(&'a K, &'a V)>)
    ensures
        vstd::std_specs::hash::obeys_key_model::<K>() ==> {
            &&& r@.len() == m@.dom().len()
            &&& forall|i: int|
                0 <= i < r@.len() ==> m@.contains_key(*(#[trigger] r@[i]).0) && m@[*r@[i].0]
                    == *r@[i].1
            &&& forall|i: int, j: int|
                0 <= i < j < r@.len() ==> *(#[trigger] r@[i]).0 != *(#[trigger] r@[j]).0
        },
{
    let mut out: Vec<(&'a K, &'a V)> = Vec::new();
    for e in m.iter() {
        out.push(e);
    }
    out
}

impl<'data, K, V> ParallelIter<'data, SizedQueue<(&'data K, &'data V)>, (K, V)> for HashMap<
    K,
    V,
> {
    type RefItem = (&'data K, &'data V);

    /// References into a table enumerate in no fixed order and have no
    /// spec-level construction, so the model does not pin them down.
    open spec fn ref_contents(&'data self) -> Option<Multiset<(&'data K, &'data V)>> {
        None
    }

    fn parallel_iter(&'data self) -> (r: ParallelIterator<SizedQueue<(&'data K, &'data V)>>) {
        let entries = hashmap_entry_refs(self);
        let n = entries.len();
        ParallelIterator::new(SizedQueue::new(entries, n))
    }
}

impl<'data, K, V> IntoParallelIter<'data, SizedQueue<(K, V)>, (K, V)> for HashMap<K, V> {
    type IntoItem = (K, V);

    open spec fn into_contents(&self) -> Option<Multiset<(K, V)>> {
        if vstd::std_specs::hash::obeys_key_model::<K>() {
            Some(self@.kv_pairs().to_multiset())
        } else {
            None
        }
    }

    fn into_parallel_iter(self) -> (r: ParallelIterator<SizedQueue<(K, V)>>) {
        let entries = hashmap_into_entries(self);
        let n = entries.len();
        ParallelIterator::new(SizedQueue::new(entries, n))
    }
}

/// The values of the range `start..end`, in order.
pub open spec fn range_seq_usize(start: usize, end: usize) -> Seq<usize> {
    Seq::new(if start < end { (end - start) as nat } else { 0nat }, |i: int| (start + i) as usize)
}

/// Materialises `start..end` front to back.
fn build_range_usize(start: usize, end: usize) -> (r: Vec<usize>)
    ensures
        r@ == range_seq_usize(start, end),
{
    let mut v: Vec<usize> = Vec::new();
    let mut cur = start;
    while cur < end
        invariant
            start <= cur,
            cur <= end || cur == start,
            v@ =~= range_seq_usize(start, end).take(if start <= cur { cur - start } else { 0int }),
        decreases end - cur,
    {
        v.push(cur);
        proof {
            assert(v@ =~= range_seq_usize(start, end).take(cur + 1 - start));
        }
        cur = cur + 1;
    }
    proof {
        assert(v@ =~= range_seq_usize(start, end));
    }
    v
}

impl<'data> IntoParallelIter<'data, SizedQueue<usize>, usize> for std::ops::Range<usize> {
    type IntoItem = usize;

    open spec fn into_contents(&self) -> Option<Multiset<usize>> {
        Some(range_seq_usize(self.start, self.end).to_multiset())
    }

    fn into_parallel_iter(self) -> (r: ParallelIterator<SizedQueue<usize>>) {
        let v = build_range_usize(self.start, self.end);
        let n = v.len();
        ParallelIterator::new(SizedQueue::new(v, n))
    }
}

/// The values of the range `start..end`, in order.
pub open spec fn range_seq_isize(start: isize, end: isize) -> Seq<isize> {
    Seq::new(if start < end { (end - start) as nat } else { 0nat }, |i: int| (start + i) as isize)
}

/// Materialises `start..end` front to back.
fn build_range_isize(start: isize, end: isize) -> (r: Vec<isize>)
    ensures
        r@ == range_seq_isize(start, end),
{
    let mut v: Vec<isize> = Vec::new();
    let mut cur = start;
    while cur < end
        invariant
            start <= cur,
            cur <= end || cur == start,
            v@ =~= range_seq_isize(start, end).take(if start <= cur { cur - start } else { 0int }),
        decreases end - cur,
    {
        v.push(cur);
        proof {
            assert(v@ =~= range_seq_isize(start, end).take(cur + 1 - start));
        }
        cur = cur + 1;
    }
    proof {
        assert(v@ =~= range_seq_isize(start, end));
    }
    v
}

impl<'data> IntoParallelIter<'data, SizedQueue<isize>, isize> for std::ops::Range<isize> {
    type IntoItem = isize;

    open spec fn into_contents(&self) -> Option<Multiset<isize>> {
        Some(range_seq_isize(self.start, self.end).to_multiset())
    }

    fn into_parallel_iter(self) -> (r: ParallelIterator<SizedQueue<isize>>) {
        let v = build_range_isize(self.start, self.end);
        let n = v.len();
        ParallelIterator::new(SizedQueue::new(v, n))
    }
}

/// The values of the range `start..end`, in order.
pub open spec fn range_seq_i32(start: i32, end: i32) -> Seq<i32> {
    Seq::new(if start < end { (end - start) as nat } else { 0nat }, |i: int| (start + i) as i32)
}

/// Materialises `start..end` front to back.
fn build_range_i32(start: i32, end: i32) -> (r: Vec<i32>)
    ensures
        r@ == range_seq_i32(start, end),
{
    let mut v: Vec<i32> = Vec::new();
    let mut cur = start;
    while cur < end
        invariant
            start <= cur,
            cur <= end || cur == start,
            v@ =~= range_seq_i32(start, end).take(if start <= cur { cur - start } else { 0int }),
        decreases end - cur,
    {
        v.push(cur);
        proof {
            assert(v@ =~= range_seq_i32(start, end).take(cur + 1 - start));
        }
        cur = cur + 1;
    }
    proof {
        assert(v@ =~= range_seq_i32(start, end));
    }
    v
}

impl<'data> IntoParallelIter<'data, SizedQueue<i32>, i32> for std::ops::Range<i32> {
    type IntoItem = i32;

    open spec fn into_contents(&self) -> Option<Multiset<i32>> {
        Some(range_seq_i32(self.start, self.end).to_multiset())
    }

    fn into_parallel_iter(self) -> (r: ParallelIterator<SizedQueue<i32>>) {
        let v = build_range_i32(self.start, self.end);
        let n = v.len();
        ParallelIterator::new(SizedQueue::new(v, n))
    }
}

/// The values of the range `start..end`, in order.
pub open spec fn range_seq_i64(start: i64, end: i64) -> Seq<i64> {
    Seq::new(if start < end { (end - start) as nat } else { 0nat }, |i: int| (start + i) as i64)
}

/// Materialises `start..end` front to back.
fn build_range_i64(start: i64, end: i64) -> (r: Vec<i64>)
    ensures
        r@ == range_seq_i64(start, end),
{
    let mut v: Vec<i64> = Vec::new();
    let mut cur = start;
    while cur < end
        invariant
            start <= cur,
            cur <= end || cur == start,
            v@ =~= range_seq_i64(start, end).take(if start <= cur { cur - start } else { 0int }),
        decreases end - cur,
    {
        v.push(cur);
        proof {
            assert(v@ =~= range_seq_i64(start, end).take(cur + 1 - start));
        }
        cur = cur + 1;
    }
    proof {
        assert(v@ =~= range_seq_i64(start, end));
    }
    v
}

impl<'data> IntoParallelIter<'data, SizedQueue<i64>, i64> for std::ops::Range<i64> {
    type IntoItem = i64;

    open spec fn into_contents(&self) -> Option<Multiset<i64>> {
        Some(range_seq_i64(self.start, self.end).to_multiset())
    }

    fn into_parallel_iter(self) -> (r: ParallelIterator<SizedQueue<i64>>) {
        let v = build_range_i64(self.start, self.end);
        let n = v.len();
        ParallelIterator::new(SizedQueue::new(v, n))
    }
}

/// The values of the range `start..end`, in order.
pub open spec fn range_seq_u32(start: u32, end: u32) -> Seq<u32> {
    Seq::new(if start < end { (end - start) as nat } else { 0nat }, |i: int| (start + i) as u32)
}

/// Materialises `start..end` front to back.
fn build_range_u32(start: u32, end: u32) -> (r: Vec<u32>)
    ensures
        r@ == range_seq_u32(start, end),
{
    let mut v: Vec<u32> = Vec::new();
    let mut cur = start;
    while cur < end
        invariant
            start <= cur,
            cur <= end || cur == start,
            v@ =~= range_seq_u32(start, end).take(if start <= cur { cur - start } else { 0int }),
        decreases end - cur,
    {
        v.push(cur);
        proof {
            assert(v@ =~= range_seq_u32(start, end).take(cur + 1 - start));
        }
        cur = cur + 1;
    }
    proof {
        assert(v@ =~= range_seq_u32(start, end));
    }
    v
}

impl<'data> IntoParallelIter<'data, SizedQueue<u32>, u32> for std::ops::Range<u32> {
    type IntoItem = u32;

    open spec fn into_contents(&self) -> Option<Multiset<u32>> {
        Some(range_seq_u32(self.start, self.end).to_multiset())
    }

    fn into_parallel_iter(self) -> (r: ParallelIterator<SizedQueue<u32>>) {
        let v = build_range_u32(self.start, self.end);
        let n = v.len();
        ParallelIterator::new(SizedQueue::new(v, n))
    }
}

/// The values of the range `start..end`, in order.
pub open spec fn range_seq_u64(start: u64, end: u64) -> Seq<u64> {
    Seq::new(if start < end { (end - start) as nat } else { 0nat }, |i: int| (start + i) as u64)
}

/// Materialises `start..end` front to back.
fn build_range_u64(start: u64, end: u64) -> (r: Vec<u64>)
    ensures
        r@ == range_seq_u64(start, end),
{
    let mut v: Vec<u64> = Vec::new();
    let mut cur = start;
    while cur < end
        invariant
            start <= cur,
            cur <= end || cur == start,
            v@ =~= range_seq_u64(start, end).take(if start <= cur { cur - start } else { 0int }),
        decreases end - cur,
    {
        v.push(cur);
        proof {
            assert(v@ =~= range_seq_u64(start, end).take(cur + 1 - start));
        }
        cur = cur + 1;
    }
    proof {
        assert(v@ =~= range_seq_u64(start, end));
    }
    v
}

impl<'data> IntoParallelIter<'data, SizedQueue<u64>, u64> for std::ops::Range<u64> {
    type IntoItem = u64;

    open spec fn into_contents(&self) -> Option<Multiset<u64>> {
        Some(range_seq_u64(self.start, self.end).to_multiset())
    }

    fn into_parallel_iter(self) -> (r: ParallelIterator<SizedQueue<u64>>) {
        let v = build_range_u64(self.start, self.end);
        let n = v.len();
        ParallelIterator::new(SizedQueue::new(v, n))
    }
}

/// Ascending order on machine integers.
pub open spec fn sorted_i32(s: Seq<i32>) -> bool {
    forall|a: int, b: int| 0 <= a <= b < s.len() ==> (#[trigger] s[a]) <= (#[trigger] s[b])
}

/// Round trip through the engine: sorting a permutation of the values of
/// `start..end` gives back exactly those values in order. Since a mapped
/// range comes back as a permutation, its sorted collection equals the
/// range.
pub proof fn lemma_sorted_range_permutation(s: Seq<i32>, start: i32, end: i32)
    requires
        sorted_i32(s),
        s.to_multiset() == range_seq_i32(start, end).to_multiset(),
    ensures
        s =~= range_seq_i32(start, end),
{
    let r = range_seq_i32(start, end);
    let leq = |x: i32, y: i32| x <= y;
    assert(vstd::relations::sorted_by(s, leq));
    assert(vstd::relations::sorted_by(r, leq));
    assert(vstd::relations::total_ordering(leq));
    vstd::seq_lib::lemma_sorted_unique(s, r, leq);
}

} // verus!
