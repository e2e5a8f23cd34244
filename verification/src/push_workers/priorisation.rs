//! Ranking of workers for the redistribution loop. The controller polls
//! every worker, builds `(position, remaining)` pairs and approaches the
//! heaviest-loaded worker first to pull half its queue away. Of the
//! strategies the enumeration names, only ranking by remaining queue
//! length is wired; the others fall back to it.

use vstd::prelude::*;
use vstd::seq_lib::group_to_multiset_ensures;

verus! {

/// Ranking entries are `(worker position, items remaining)`, ordered by
/// the second component, heaviest first.
pub open spec fn sorted_desc(s: Seq<(usize, usize)>) -> bool {
    forall|i: int, j: int| 0 <= i <= j < s.len() ==> (#[trigger] s[i]).1 >= (#[trigger] s[j]).1
}

/// Strategy for choosing which worker to relieve first. Ranking by items
/// remaining is the one the scheduler ships; rate-of-change and
/// change-from-last-poll are recognised but rank the same way.
pub enum ThreadPrioritization {
    Remaining,
    RateOfChange,
    ChangeFromLastPoll,
}

impl ThreadPrioritization {
    /// Orders a snapshot of `(position, remaining)` pairs so that the
    /// heaviest-loaded worker comes first. The result is a permutation of
    /// the snapshot.
    pub fn prioritize(&self, snapshot: Vec<(usize, usize)>) -> (r: Vec<(usize, usize)>)
        ensures
            r@.len() == snapshot@.len(),
            r@.to_multiset() == snapshot@.to_multiset(),
            sorted_desc(r@),
    {
        let mut v = snapshot;
        let ghost orig = v@;
        let mut i: usize = 1;
        if v.len() == 0 {
            return v;
        }
        while i < v.len()
            invariant
                1 <= i,
                i <= v@.len(),
                v@.len() == orig.len(),
                v@.to_multiset() == orig.to_multiset(),
                sorted_desc(v@.take(i as int)),
            decreases v@.len() - i,
        {
            let mut j = i;
            proof {
                assert forall|a: int, b: int|
                    0 <= a <= b <= i && a != i && b != i implies (#[trigger] v@[a]).1
                        >= (#[trigger] v@[b]).1 by {
                    assert(v@.take(i as int)[a] == v@[a]);
                    assert(v@.take(i as int)[b] == v@[b]);
                }
            }
            while j > 0 && v[j - 1].1 < v[j].1
                invariant
                    0 <= j <= i,
                    i < v@.len(),
                    v@.len() == orig.len(),
                    v@.to_multiset() == orig.to_multiset(),
                    forall|a: int, b: int|
                        0 <= a <= b <= i && a != j && b != j ==> (#[trigger] v@[a]).1
                            >= (#[trigger] v@[b]).1,
                    forall|b: int| j < b <= i ==> (#[trigger] v@[b]).1 <= v@[j as int].1,
                decreases j,
            {
                let ghost before = v@;
                let x = v[j - 1];
                let y = v[j];
                v[j - 1] = y;
                v[j] = x;
                proof {
                    broadcast use group_to_multiset_ensures;

                    let s1 = before.update(j - 1, y);
                    vstd::seq_lib::to_multiset_update(before, j - 1, y);
                    vstd::seq_lib::to_multiset_update(s1, j as int, x);
                    assert(before[j - 1] == x && before[j as int] == y);
                    assert(s1[j as int] == y);
                    assert(before.contains(x));
                    assert(s1.contains(y));
                    assert(v@ =~= s1.update(j as int, x));
                    assert forall|e: (usize, usize)|
                        v@.to_multiset().count(e) == before.to_multiset().count(e) by {
                        assert(before.to_multiset().count(x) > 0);
                        assert(s1.to_multiset().count(y) > 0);
                    }
                    assert(v@.to_multiset() =~= before.to_multiset());
                }
                j = j - 1;
            }
            proof {
                assert(sorted_desc(v@.take(i as int + 1)));
            }
            i += 1;
        }
        proof {
            assert(sorted_desc(v@.take(v@.len() as int)));
            assert(v@.take(v@.len() as int) =~= v@);
        }
        v
    }
}

} // verus!
