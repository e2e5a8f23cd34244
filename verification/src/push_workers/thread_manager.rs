//! The manager owns the pool of workers and the list of currently idle
//! ones, launches new workers when growth pays for itself, and joins the
//! pool at shutdown. Its contracts account for every item across worker
//! queues, so the controller can show that nothing is lost or invented.

use vstd::prelude::*;
use vstd::multiset::Multiset;
use std::collections::VecDeque;
use crate::collector::Collector;
use crate::errors::WorkThreadError;
use crate::push_workers::worker_thread::{lemma_pairs_valid_concat, pairs_valid, WorkerThread};

verus! {

broadcast use vstd::seq_lib::group_to_multiset_ensures;

/// Total load — items consumed plus items queued — across a pool.
pub open spec fn loads_ms<V, T>(ws: Seq<WorkerThread<V, T>>) -> Multiset<V>
    decreases ws.len(),
{
    if ws.len() == 0 {
        Multiset::empty()
    } else {
        loads_ms(ws.drop_last()).add(ws.last().load())
    }
}

/// Total number of queued items across a pool.
pub open spec fn queues_len<V, T>(ws: Seq<WorkerThread<V, T>>) -> nat
    decreases ws.len(),
{
    if ws.len() == 0 {
        0
    } else {
        queues_len(ws.drop_last()) + ws.last().queue_contents().len()
    }
}

/// Changing one worker shifts the pool's load by exactly that worker's
/// change, counted per element.
pub proof fn lemma_loads_update_count<V, T>(
    ws1: Seq<WorkerThread<V, T>>,
    ws2: Seq<WorkerThread<V, T>>,
    i: int,
    a: V,
)
    requires
        0 <= i < ws1.len(),
        ws2.len() == ws1.len(),
        forall|j: int| 0 <= j < ws1.len() && j != i ==> ws2[j] == ws1[j],
    ensures
        loads_ms(ws2).count(a) + ws1[i].load().count(a) == loads_ms(ws1).count(a)
            + ws2[i].load().count(a),
    decreases ws1.len(),
{
    if i == ws1.len() - 1 {
        assert(ws2.drop_last() =~= ws1.drop_last());
    } else {
        assert(ws2.last() == ws1.last());
        lemma_loads_update_count(ws1.drop_last(), ws2.drop_last(), i, a);
        assert(ws1.drop_last()[i] == ws1[i]);
        assert(ws2.drop_last()[i] == ws2[i]);
    }
}

/// Changing one worker shifts the pool's queued total by exactly that
/// worker's change.
pub proof fn lemma_queues_len_update<V, T>(
    ws1: Seq<WorkerThread<V, T>>,
    ws2: Seq<WorkerThread<V, T>>,
    i: int,
)
    requires
        0 <= i < ws1.len(),
        ws2.len() == ws1.len(),
        forall|j: int| 0 <= j < ws1.len() && j != i ==> ws2[j] == ws1[j],
    ensures
        queues_len(ws2) + ws1[i].queue_contents().len() == queues_len(ws1)
            + ws2[i].queue_contents().len(),
    decreases ws1.len(),
{
    if i == ws1.len() - 1 {
        assert(ws2.drop_last() =~= ws1.drop_last());
    } else {
        assert(ws2.last() == ws1.last());
        lemma_queues_len_update(ws1.drop_last(), ws2.drop_last(), i);
        assert(ws1.drop_last()[i] == ws1[i]);
        assert(ws2.drop_last()[i] == ws2[i]);
    }
}

/// The pool's load bounds each single worker's load from above.
pub proof fn lemma_loads_ge_count<V, T>(ws: Seq<WorkerThread<V, T>>, i: int, a: V)
    requires
        0 <= i < ws.len(),
    ensures
        loads_ms(ws).count(a) >= ws[i].load().count(a),
    decreases ws.len(),
{
    if i == ws.len() - 1 {
    } else {
        lemma_loads_ge_count(ws.drop_last(), i, a);
        assert(ws.drop_last()[i] == ws[i]);
    }
}

/// The pool's queued total bounds each single queue's length from above.
pub proof fn lemma_queues_len_ge<V, T>(ws: Seq<WorkerThread<V, T>>, i: int)
    requires
        0 <= i < ws.len(),
    ensures
        queues_len(ws) >= ws[i].queue_contents().len(),
    decreases ws.len(),
{
    if i == ws.len() - 1 {
    } else {
        lemma_queues_len_ge(ws.drop_last(), i);
        assert(ws.drop_last()[i] == ws[i]);
    }
}

/// Pools whose workers carry the same load element-wise carry the same
/// total load.
pub proof fn lemma_loads_pointwise<V, T>(
    ws1: Seq<WorkerThread<V, T>>,
    ws2: Seq<WorkerThread<V, T>>,
)
    requires
        ws2.len() == ws1.len(),
        forall|i: int| 0 <= i < ws1.len() ==> ws2[i].load() =~= ws1[i].load(),
    ensures
        loads_ms(ws2) =~= loads_ms(ws1),
    decreases ws1.len(),
{
    if ws1.len() > 0 {
        lemma_loads_pointwise(ws1.drop_last(), ws2.drop_last());
        assert(ws2.last().load() =~= ws1.last().load());
        assert(loads_ms(ws2) =~= loads_ms(ws1));
    }
}

/// A pool whose queues are all drained has nothing queued.
pub proof fn lemma_queues_len_zero<V, T>(ws: Seq<WorkerThread<V, T>>)
    requires
        forall|i: int| 0 <= i < ws.len() ==> (#[trigger] ws[i]).queue_contents().len() == 0,
    ensures
        queues_len(ws) == 0,
    decreases ws.len(),
{
    if ws.len() > 0 {
        lemma_queues_len_zero(ws.drop_last());
    }
}

/// A pool that changed at one position, to a well-formed worker that kept
/// its position, with the idle list intact, is still well-formed.
pub proof fn lemma_inv_update<V, T>(m1: ThreadManager<V, T>, m2: ThreadManager<V, T>, pos: int)
    requires
        m1.inv(),
        0 <= pos < m1.threads_seq().len(),
        m2.free_list() == m1.free_list(),
        m2.threads_seq().len() == m1.threads_seq().len(),
        forall|j: int|
            0 <= j < m1.threads_seq().len() && j != pos ==> m2.threads_seq()[j]
                == #[trigger] m1.threads_seq()[j],
        m2.threads_seq()[pos].wf(),
        m2.threads_seq()[pos].pos_spec() == pos,
    ensures
        m2.inv(),
{
    assert forall|i: int| 0 <= i < m2.threads_seq().len() implies (
    #[trigger] m2.threads_seq()[i]).wf() && m2.threads_seq()[i].pos_spec() == i by {
        if i != pos {
            assert(m2.threads_seq()[i] == m1.threads_seq()[i]);
        }
    }
    assert forall|j: int| 0 <= j < m2.free_list().len() implies (#[trigger] m2.free_list()[j])
        < m2.threads_seq().len() by {
        assert(m1.free_list()[j] < m1.threads_seq().len());
    }
}

/// Owns the workers, the idle list and the growth cap.
pub struct ThreadManager<V, T> {
    threads: Vec<WorkerThread<V, T>>,
    max_threads: usize,
    free_threads: VecDeque<usize>,
}

impl<V, T> ThreadManager<V, T> {
    pub closed spec fn threads_seq(&self) -> Seq<WorkerThread<V, T>> {
        self.threads@
    }

    pub closed spec fn free_list(&self) -> Seq<usize> {
        self.free_threads@
    }

    pub closed spec fn max_threads_spec(&self) -> usize {
        self.max_threads
    }

    /// Every worker is well-formed and sits at its own position; the idle
    /// list only names existing workers.
    pub open spec fn inv(&self) -> bool {
        &&& forall|i: int|
            0 <= i < self.threads_seq().len() ==> (#[trigger] self.threads_seq()[i]).wf()
                && self.threads_seq()[i].pos_spec() == i
        &&& forall|j: int|
            0 <= j < self.free_list().len() ==> (#[trigger] self.free_list()[j])
                < self.threads_seq().len()
    }

    /// No worker is named twice on the idle list.
    pub open spec fn free_distinct(&self) -> bool {
        forall|j1: int, j2: int|
            0 <= j1 < j2 < self.free_list().len() ==> (#[trigger] self.free_list()[j1]) != (
            #[trigger] self.free_list()[j2])
    }

    /// The pool's total load.
    pub open spec fn loads(&self) -> Multiset<V> {
        loads_ms(self.threads_seq())
    }

    /// The pool's total queued item count.
    pub open spec fn queued_total(&self) -> nat {
        queues_len(self.threads_seq())
    }

    pub fn new(max_threads: usize) -> (r: Self)
        ensures
            r.inv(),
            r.threads_seq() =~= Seq::<WorkerThread<V, T>>::empty(),
            r.free_list() =~= Seq::<usize>::empty(),
            r.max_threads_spec() == max_threads,
    {
        ThreadManager { threads: Vec::new(), max_threads, free_threads: VecDeque::new() }
    }

    pub fn has_free_threads(&self) -> (r: bool)
        ensures
            r == (self.free_list().len() > 0),
    {
        self.free_threads.len() != 0
    }

    pub fn add_to_free_queue(&mut self, pos: usize)
        requires
            old(self).inv(),
            pos < old(self).threads_seq().len(),
        ensures
            final(self).inv(),
            final(self).threads_seq() == old(self).threads_seq(),
            final(self).max_threads_spec() == old(self).max_threads_spec(),
            final(self).free_list() == seq![pos] + old(self).free_list(),
    {
        self.free_threads.push_front(pos);
        proof {
            assert forall|j: int| 0 <= j < self.free_list().len() implies (
            #[trigger] self.free_list()[j]) < self.threads_seq().len() by {
                if j == 0 {
                    assert(self.free_list()[0] == pos);
                } else {
                    assert(self.free_list()[j] == old(self).free_list()[j - 1]);
                }
            }
        }
    }

    pub fn clear_free_threads(&mut self)
        ensures
            old(self).inv() ==> final(self).inv(),
            final(self).threads_seq() == old(self).threads_seq(),
            final(self).max_threads_spec() == old(self).max_threads_spec(),
            final(self).free_list() =~= Seq::<usize>::empty(),
    {
        self.free_threads = VecDeque::new();
        proof {
            if old(self).inv() {
                assert forall|j: int| 0 <= j < self.free_list().len() implies (
                #[trigger] self.free_list()[j]) < self.threads_seq().len() by {}
                assert forall|i: int| 0 <= i < self.threads_seq().len() implies (
                #[trigger] self.threads_seq()[i]).wf() && self.threads_seq()[i].pos_spec()
                    == i by {
                    assert(old(self).threads_seq()[i].wf());
                }
            }
        }
    }

    pub fn pop_from_free_queue(&mut self) -> (r: Option<usize>)
        requires
            old(self).inv(),
        ensures
            final(self).inv(),
            final(self).threads_seq() == old(self).threads_seq(),
            final(self).max_threads_spec() == old(self).max_threads_spec(),
            r is None ==> old(self).free_list().len() == 0 && final(self).free_list() == old(self).free_list(),
            r matches Some(p) ==> old(self).free_list().len() > 0 && p == old(self).free_list().last() && p < old(self).threads_seq().len() && final(self).free_list()
                == old(self).free_list().drop_last(),
    {
        let r = self.free_threads.pop_back();
        proof {
            if old(self).free_list().len() > 0 {
                assert(final(self).free_list() =~= old(self).free_list().drop_last());
            }
        }
        r
    }

    pub fn thread_len(&self) -> (r: usize)
        ensures
            r == self.threads_seq().len(),
    {
        self.threads.len()
    }

    pub fn get_free_treads(&self) -> (r: &VecDeque<usize>)
        ensures
            r@ == self.free_list(),
    {
        &self.free_threads
    }

    /// Launches one more worker. The OS spawn lives in the runtime shell;
    /// here a fresh worker joins the pool at the next position.
    pub fn add_thread(&mut self) -> (r: Result<(), WorkThreadError>)
        requires
            old(self).inv(),
        ensures
            final(self).inv(),
            r is Ok,
            final(self).max_threads_spec() == old(self).max_threads_spec(),
            final(self).free_list() == old(self).free_list(),
            final(self).threads_seq().len() == old(self).threads_seq().len() + 1,
            final(self).threads_seq().drop_last() =~= old(self).threads_seq(),
            final(self).threads_seq().last().wf(),
            final(self).threads_seq().last().queue_contents().len() == 0,
            final(self).threads_seq().last().spec_state() is Waiting,
            final(self).threads_seq().last().outputs_seq() =~= Seq::<T>::empty(),
            final(self).threads_seq().last().inputs_seq() =~= Seq::<V>::empty(),
            final(self).loads() =~= old(self).loads(),
            final(self).queued_total() == old(self).queued_total(),
    {
        let pos = self.threads.len();
        match WorkerThread::launch(pos) {
            Ok(t) => {
                self.threads.push(t);
                proof {
                    assert(self.threads_seq().drop_last() =~= old(self).threads_seq());
                    let w = self.threads_seq().last();
                    assert forall|a: V| w.load().count(a) == 0 by {
                        assert(!w.inputs_seq().contains(a));
                        assert(!w.queue_contents().contains(a));
                    }
                    assert(w.load() =~= Multiset::<V>::empty());
                    assert forall|a: V| self.loads().count(a) == old(self).loads().count(a) by {
                        assert(loads_ms(self.threads_seq()) == loads_ms(
                            self.threads_seq().drop_last(),
                        ).add(w.load()));
                    }
                    assert(self.loads() =~= old(self).loads());
                    assert forall|i: int| 0 <= i < self.threads_seq().len() implies (
                    #[trigger] self.threads_seq()[i]).wf() && self.threads_seq()[i].pos_spec()
                        == i by {
                        if i < old(self).threads_seq().len() {
                            assert(self.threads_seq()[i] == old(self).threads_seq()[i]);
                            assert(old(self).threads_seq()[i].wf());
                        }
                    }
                    assert forall|j: int| 0 <= j < self.free_list().len() implies (
                    #[trigger] self.free_list()[j]) < self.threads_seq().len() by {
                        assert(old(self).free_list()[j] < old(self).threads_seq().len());
                    }
                }
                Ok(())
            },
            Err(e) => Err(e),
        }
    }

    /// Position and current queue length of every worker, for ranking.
    pub fn snapshot_lengths(&mut self) -> (r: Vec<(usize, usize)>)
        requires
            old(self).inv(),
        ensures
            final(self).threads_seq() == old(self).threads_seq(),
            final(self).free_list() == old(self).free_list(),
            final(self).max_threads_spec() == old(self).max_threads_spec(),
            r@.len() == old(self).threads_seq().len(),
            forall|i: int|
                0 <= i < r@.len() ==> #[trigger] r@[i] == (
                    i as usize,
                    old(self).threads_seq()[i].queue_contents().len() as usize,
                ),
    {
        let mut r: Vec<(usize, usize)> = Vec::new();
        let mut i: usize = 0;
        let n = self.threads.len();
        while i < n
            invariant
                self.threads_seq() == old(self).threads_seq(),
                self.free_list() == old(self).free_list(),
                self.max_threads_spec() == old(self).max_threads_spec(),
                old(self).inv(),
                i <= n,
                n == old(self).threads_seq().len(),
                r@.len() == i,
                forall|k: int|
                    0 <= k < r@.len() ==> #[trigger] r@[k] == (
                        k as usize,
                        old(self).threads_seq()[k].queue_contents().len() as usize,
                    ),
            decreases n - i,
        {
            let ghost before = self.threads_seq();
            let w = &mut self.threads[i];
            let len = w.queue_len();
            proof {
                assert(self.threads_seq() =~= before);
            }
            r.push((i, len));
            i += 1;
        }
        r
    }

    /// Whether worker `pos` is in Run.
    pub fn is_running_at(&mut self, pos: usize) -> (r: bool)
        requires
            old(self).inv(),
            pos < old(self).threads_seq().len(),
        ensures
            final(self).threads_seq() == old(self).threads_seq(),
            final(self).free_list() == old(self).free_list(),
            final(self).max_threads_spec() == old(self).max_threads_spec(),
            r == (old(self).threads_seq()[pos as int].spec_state() is Run),
    {
        let ghost before = self.threads_seq();
        let w = &mut self.threads[pos];
        let r = w.is_running();
        proof {
            assert(self.threads_seq() =~= before);
        }
        r
    }

    /// Whether worker `pos` is idle: not running, with a drained queue.
    pub fn is_free_at(&mut self, pos: usize) -> (r: bool)
        requires
            old(self).inv(),
            pos < old(self).threads_seq().len(),
        ensures
            final(self).threads_seq() == old(self).threads_seq(),
            final(self).free_list() == old(self).free_list(),
            final(self).max_threads_spec() == old(self).max_threads_spec(),
            r == (!(old(self).threads_seq()[pos as int].spec_state() is Run) && old(self).threads_seq()[pos as int].queue_contents().len() == 0),
    {
        let ghost before = self.threads_seq();
        let w = &mut self.threads[pos];
        let running = w.is_running();
        let w2 = &mut self.threads[pos];
        let empty = w2.is_queue_empty();
        proof {
            assert(self.threads_seq() =~= before);
        }
        !running && empty
    }

    /// Steals the upper half of worker `pos`'s queue. The pool's load
    /// shrinks by exactly the stolen chunk; everything else stands.
    pub fn steal_half_from(&mut self, pos: usize) -> (r: Option<Vec<V>>)
        requires
            old(self).inv(),
            pos < old(self).threads_seq().len(),
        ensures
            final(self).inv(),
            final(self).max_threads_spec() == old(self).max_threads_spec(),
            final(self).free_list() == old(self).free_list(),
            final(self).threads_seq().len() == old(self).threads_seq().len(),
            forall|j: int|
                0 <= j < old(self).threads_seq().len() && j != pos ==> final(self).threads_seq()[j]
                    == #[trigger] old(self).threads_seq()[j],
            final(self).threads_seq()[pos as int].outputs_seq() == old(self).threads_seq()[
                pos as int
            ].outputs_seq(),
            final(self).threads_seq()[pos as int].inputs_seq() == old(self).threads_seq()[
                pos as int
            ].inputs_seq(),
            final(self).threads_seq()[pos as int].spec_state() == old(self).threads_seq()[
                pos as int
            ].spec_state(),
            r is None ==> old(self).threads_seq()[pos as int].queue_contents().len() == 0 && final(self).threads_seq()[pos as int].queue_contents() == old(self).threads_seq()[
                pos as int
            ].queue_contents(),
            r matches Some(v) ==> {
                let before = old(self).threads_seq()[pos as int].queue_contents();
                let after = final(self).threads_seq()[pos as int].queue_contents();
                &&& before.len() > 0
                &&& v@.len() > 0
                &&& before =~= after + v@
                &&& after == before.take(before.len() as int / 2)
            },
    {
        let w = &mut self.threads[pos];
        let r = w.steal_half();
        proof {
            lemma_inv_update(*old(self), *self, pos as int);
        }
        r
    }

    /// Forwards a full steal on worker `pos`'s queue.
    pub fn steal_from(&mut self, pos: usize) -> (r: Option<Vec<V>>)
        requires
            old(self).inv(),
            pos < old(self).threads_seq().len(),
        ensures
            final(self).inv(),
            final(self).max_threads_spec() == old(self).max_threads_spec(),
            final(self).free_list() == old(self).free_list(),
            final(self).threads_seq().len() == old(self).threads_seq().len(),
            forall|j: int|
                0 <= j < old(self).threads_seq().len() && j != pos ==> final(self).threads_seq()[j]
                    == #[trigger] old(self).threads_seq()[j],
            final(self).threads_seq()[pos as int].outputs_seq() == old(self).threads_seq()[
                pos as int
            ].outputs_seq(),
            final(self).threads_seq()[pos as int].inputs_seq() == old(self).threads_seq()[
                pos as int
            ].inputs_seq(),
            final(self).threads_seq()[pos as int].spec_state() == old(self).threads_seq()[
                pos as int
            ].spec_state(),
            r is None ==> old(self).threads_seq()[pos as int].queue_contents().len() == 0 && final(self).threads_seq()[pos as int].queue_contents() == old(self).threads_seq()[
                pos as int
            ].queue_contents(),
            r matches Some(v) ==> v@ == old(self).threads_seq()[pos as int].queue_contents() && v@.len() > 0
                && final(self).threads_seq()[pos as int].queue_contents().len() == 0,
    {
        let w = &mut self.threads[pos];
        let r = w.steal();
        proof {
            lemma_inv_update(*old(self), *self, pos as int);
        }
        r
    }

    /// Hands a stolen chunk to idle worker `pos` and signals it to Run.
    pub fn assign_to(&mut self, pos: usize, values: Vec<V>) -> (r: Result<(), WorkThreadError>)
        requires
            old(self).inv(),
            pos < old(self).threads_seq().len(),
            old(self).threads_seq()[pos as int].queue_contents().len() == 0,
            old(self).threads_seq()[pos as int].spec_state() is Waiting,
            values@.len() > 0,
        ensures
            final(self).inv(),
            r is Ok,
            final(self).max_threads_spec() == old(self).max_threads_spec(),
            final(self).free_list() == old(self).free_list(),
            final(self).threads_seq().len() == old(self).threads_seq().len(),
            forall|j: int|
                0 <= j < old(self).threads_seq().len() && j != pos ==> final(self).threads_seq()[j]
                    == #[trigger] old(self).threads_seq()[j],
            final(self).threads_seq()[pos as int].outputs_seq() == old(self).threads_seq()[
                pos as int
            ].outputs_seq(),
            final(self).threads_seq()[pos as int].inputs_seq() == old(self).threads_seq()[
                pos as int
            ].inputs_seq(),
            final(self).threads_seq()[pos as int].queue_contents() == values@,
            final(self).threads_seq()[pos as int].spec_state() is Run,
    {
        let w = &mut self.threads[pos];
        let _res = w.run(values);
        proof {
            lemma_inv_update(*old(self), *self, pos as int);
        }
        Ok(())
    }

    /// Lets worker `pos` drain its batch: its queued items move into its
    /// consumed record, outputs in tow, and it comes back Waiting.
    pub fn process_worker<F: Fn(V) -> T>(&mut self, pos: usize, f: &F)
        requires
            old(self).inv(),
            pos < old(self).threads_seq().len(),
            old(self).threads_seq()[pos as int].spec_state() is Run,
            old(self).threads_seq()[pos as int].queue_ok(*f),
        ensures
            final(self).inv(),
            final(self).max_threads_spec() == old(self).max_threads_spec(),
            final(self).free_list() == old(self).free_list(),
            final(self).threads_seq().len() == old(self).threads_seq().len(),
            forall|j: int|
                0 <= j < old(self).threads_seq().len() && j != pos ==> final(self).threads_seq()[j]
                    == #[trigger] old(self).threads_seq()[j],
            final(self).threads_seq()[pos as int].spec_state() is Waiting,
            final(self).threads_seq()[pos as int].queue_contents().len() == 0,
            final(self).threads_seq()[pos as int].load() =~= old(self).threads_seq()[
                pos as int
            ].load(),
            old(self).threads_seq()[pos as int].results_ok(*f) ==> final(self).threads_seq()[
                pos as int
            ].results_ok(*f),
    {
        let w = &mut self.threads[pos];
        w.process(f);
        proof {
            lemma_inv_update(*old(self), *self, pos as int);
            let before = old(self).threads_seq()[pos as int];
            let after = self.threads_seq()[pos as int];
            assert forall|a: V| after.load().count(a) == before.load().count(a) by {
                assert(after.queue_contents().to_multiset().count(a) == 0) by {
                    assert(!after.queue_contents().contains(a));
                }
                assert(after.inputs_seq().to_multiset().count(a)
                    == before.inputs_seq().to_multiset().add(
                    before.queue_contents().to_multiset(),
                ).count(a));
            }
            assert(after.load() =~= before.load());
        }
    }

    /// Rebuilds the idle list: a worker is free when it is not running and
    /// its queue is drained. For every busy worker whose projected queue
    /// time exceeds `control_time` — the measured cost of spinning up one
    /// worker — growth would pay for itself; if nobody came free and the
    /// cap allows, that many new workers are launched and the amortised
    /// spawn cost becomes the new control time.
    pub fn refresh_free_threads(&mut self, control_time: u128) -> (r: Result<
        u128,
        WorkThreadError,
    >)
        requires
            old(self).inv(),
        ensures
            final(self).inv(),
            r is Ok,
            final(self).max_threads_spec() == old(self).max_threads_spec(),
            final(self).threads_seq().len() >= old(self).threads_seq().len(),
            forall|i: int|
                0 <= i < old(self).threads_seq().len() ==> final(self).threads_seq()[i]
                    == #[trigger] old(self).threads_seq()[i],
            forall|i: int|
                old(self).threads_seq().len() <= i < final(self).threads_seq().len() ==> {
                    let w = #[trigger] final(self).threads_seq()[i];
                    &&& w.queue_contents().len() == 0
                    &&& w.spec_state() is Waiting
                    &&& w.outputs_seq() =~= Seq::<T>::empty()
                    &&& w.inputs_seq() =~= Seq::<V>::empty()
                },
            final(self).loads() =~= old(self).loads(),
            final(self).queued_total() == old(self).queued_total(),
            forall|j: int|
                0 <= j < final(self).free_list().len() ==> {
                    let p = #[trigger] final(self).free_list()[j];
                    &&& p < final(self).threads_seq().len()
                    &&& !(final(self).threads_seq()[p as int].spec_state() is Run)
                    &&& final(self).threads_seq()[p as int].queue_contents().len() == 0
                },
            forall|i: int|
                0 <= i < final(self).threads_seq().len()
                    && !((#[trigger] final(self).threads_seq()[i]).spec_state() is Run)
                    && final(self).threads_seq()[i].queue_contents().len() == 0
                    ==> final(self).free_list().contains(i as usize),
            final(self).free_distinct(),
            old(self).threads_seq().len() < old(self).max_threads_spec()
                ==> final(self).threads_seq().len() <= old(self).max_threads_spec(),
            old(self).threads_seq().len() >= old(self).max_threads_spec()
                ==> final(self).threads_seq().len() == old(self).threads_seq().len(),
            (exists|i: int|
                0 <= i < old(self).threads_seq().len()
                    && !((#[trigger] old(self).threads_seq()[i]).spec_state() is Run)
                    && old(self).threads_seq()[i].queue_contents().len() == 0)
                ==> final(self).threads_seq().len() == old(self).threads_seq().len(),
    {
        self.clear_free_threads();
        let mut count_high_process_time: usize = 0;
        let n = self.threads.len();
        let more_threads_available = n < self.max_threads;
        let mut idx: usize = 0;
        while idx < n
            invariant
                old(self).inv(),
                self.inv(),
                idx <= n,
                n == old(self).threads_seq().len(),
                self.threads_seq() == old(self).threads_seq(),
                self.max_threads_spec() == old(self).max_threads_spec(),
                forall|j: int|
                    0 <= j < self.free_list().len() ==> {
                        let p = #[trigger] self.free_list()[j];
                        &&& p < self.threads_seq().len()
                        &&& !(self.threads_seq()[p as int].spec_state() is Run)
                        &&& self.threads_seq()[p as int].queue_contents().len() == 0
                    },
                forall|j: int| 0 <= j < self.free_list().len() ==> (#[trigger] self.free_list()[j]) < idx,
                forall|i: int|
                    0 <= i < idx && !((#[trigger] self.threads_seq()[i]).spec_state() is Run)
                        && self.threads_seq()[i].queue_contents().len() == 0
                        ==> self.free_list().contains(i as usize),
                self.free_distinct(),
            decreases n - idx,
        {
            let ghost free_pre = self.free_list();
            let free = self.is_free_at(idx);
            if free {
                self.add_to_free_queue(idx);
                proof {
                    assert forall|i: int|
                        0 <= i < idx + 1 && !((#[trigger] self.threads_seq()[i]).spec_state()
                            is Run) && self.threads_seq()[i].queue_contents().len() == 0
                            implies self.free_list().contains(i as usize) by {
                        if i == idx {
                            assert(self.free_list()[0] == idx);
                        } else {
                            let j = choose|j: int|
                                0 <= j < free_pre.len() && free_pre[j] == i as usize;
                            assert(self.free_list()[j + 1] == i as usize);
                        }
                    }
                    assert forall|j1: int, j2: int|
                        0 <= j1 < j2 < self.free_list().len() implies (
                        #[trigger] self.free_list()[j1]) != (#[trigger] self.free_list()[j2]) by {
                        if j1 == 0 {
                            assert(self.free_list()[j1] == idx);
                            assert(self.free_list()[j2] == free_pre[j2 - 1]);
                            assert(free_pre[j2 - 1] < idx);
                        } else {
                            assert(self.free_list()[j1] == free_pre[j1 - 1]);
                            assert(self.free_list()[j2] == free_pre[j2 - 1]);
                        }
                    }
                }
            } else if more_threads_available {
                let ghost before = self.threads_seq();
                let w = &mut self.threads[idx];
                let predicted = w.predicted_queue_nanos();
                proof {
                    assert(self.threads_seq() =~= before);
                }
                match predicted {
                    Some(t) => {
                        if t > control_time && count_high_process_time < usize::MAX {
                            count_high_process_time = count_high_process_time + 1;
                        }
                    },
                    None => {},
                }
            }
            idx += 1;
        }
        let mut new_control_time = control_time;
        if more_threads_available && !self.has_free_threads() && count_high_process_time > 0 {
            let headroom = self.max_threads - n;
            let new_thread_count = if headroom < count_high_process_time {
                headroom
            } else {
                count_high_process_time
            };
            let tm = crate::push_workers::worker_thread::instant_now();
            let ghost base = self.threads_seq();
            proof {
                assert forall|i: int|
                    0 <= i < base.len() implies ((#[trigger] base[i]).spec_state() is Run)
                        || base[i].queue_contents().len() > 0 by {
                    if !(base[i].spec_state() is Run) && base[i].queue_contents().len() == 0 {
                        assert(self.free_list().contains(i as usize));
                        let j = choose|j: int|
                            0 <= j < self.free_list().len() && self.free_list()[j] == i as usize;
                        assert(false);
                    }
                }
            }
            let mut added: usize = 0;
            while added < new_thread_count
                invariant
                    self.inv(),
                    added <= new_thread_count,
                    self.max_threads_spec() == old(self).max_threads_spec(),
                    self.threads_seq().len() == base.len() + added,
                    forall|i: int|
                        0 <= i < base.len() ==> self.threads_seq()[i] == #[trigger] base[i],
                    forall|i: int|
                        base.len() <= i < self.threads_seq().len() ==> {
                            let w = #[trigger] self.threads_seq()[i];
                            &&& w.queue_contents().len() == 0
                            &&& w.spec_state() is Waiting
                            &&& w.outputs_seq() =~= Seq::<T>::empty()
                            &&& w.inputs_seq() =~= Seq::<V>::empty()
                        },
                    loads_ms(self.threads_seq()) =~= loads_ms(base),
                    queues_len(self.threads_seq()) == queues_len(base),
                    forall|j: int|
                        0 <= j < self.free_list().len() ==> {
                            let p = #[trigger] self.free_list()[j];
                            &&& p < self.threads_seq().len()
                            &&& !(self.threads_seq()[p as int].spec_state() is Run)
                            &&& self.threads_seq()[p as int].queue_contents().len() == 0
                        },
                    forall|i: int|
                        0 <= i < base.len() ==> ((#[trigger] base[i]).spec_state() is Run)
                            || base[i].queue_contents().len() > 0,
                    forall|i: int|
                        base.len() <= i < self.threads_seq().len()
                            ==> #[trigger] self.free_list().contains(i as usize),
                    self.free_distinct(),
                decreases new_thread_count - added,
            {
                let ghost before_add = self.threads_seq();
                let ghost free_before = self.free_list();
                let _res = self.add_thread();
                proof {
                    assert(self.threads_seq().drop_last() =~= before_add);
                    assert forall|i: int| 0 <= i < base.len() implies self.threads_seq()[i]
                        == #[trigger] base[i] by {
                        assert(self.threads_seq()[i] == before_add[i]);
                    }
                    assert forall|a: V|
                        loads_ms(self.threads_seq()).count(a) == loads_ms(base).count(a) by {
                        assert(loads_ms(self.threads_seq()).count(a) == loads_ms(
                            before_add,
                        ).count(a));
                        assert(loads_ms(before_add).count(a) == loads_ms(base).count(a));
                    }
                }
                let newest = self.threads.len() - 1;
                self.add_to_free_queue(newest);
                proof {
                    assert forall|i: int|
                        base.len() <= i < self.threads_seq().len() implies #[trigger] self.free_list().contains(i as usize) by {
                        if i == newest as int {
                            assert(self.free_list()[0] == newest);
                            assert(self.free_list().contains(newest));
                        } else {
                            assert(free_before.contains(i as usize));
                            let j = choose|j: int|
                                0 <= j < free_before.len() && free_before[j] == i as usize;
                            assert(self.free_list()[j + 1] == i as usize);
                            assert(self.free_list().contains(i as usize));
                        }
                    }
                    assert forall|j1: int, j2: int|
                        0 <= j1 < j2 < self.free_list().len() implies (
                        #[trigger] self.free_list()[j1]) != (#[trigger] self.free_list()[j2]) by {
                        if j1 == 0 {
                            assert(self.free_list()[j1] == newest);
                            assert(self.free_list()[j2] == free_before[j2 - 1]);
                            assert(free_before[j2 - 1] < before_add.len());
                        } else {
                            assert(self.free_list()[j1] == free_before[j1 - 1]);
                            assert(self.free_list()[j2] == free_before[j2 - 1]);
                        }
                    }
                    assert forall|i: int|
                        base.len() <= i < self.threads_seq().len() implies {
                            let w = #[trigger] self.threads_seq()[i];
                            &&& w.queue_contents().len() == 0
                            &&& w.spec_state() is Waiting
                            &&& w.outputs_seq() =~= Seq::<T>::empty()
                            &&& w.inputs_seq() =~= Seq::<V>::empty()
                        } by {
                        if i < before_add.len() {
                            assert(self.threads_seq()[i] == before_add[i]);
                        } else {
                            assert(self.threads_seq()[i] == self.threads_seq().last());
                        }
                    }
                    assert forall|j: int|
                        0 <= j < self.free_list().len() implies {
                            let p = #[trigger] self.free_list()[j];
                            &&& p < self.threads_seq().len()
                            &&& !(self.threads_seq()[p as int].spec_state() is Run)
                            &&& self.threads_seq()[p as int].queue_contents().len() == 0
                        } by {
                        if j == 0 {
                            assert(self.free_list()[0] == newest);
                            assert(self.threads_seq()[newest as int]
                                == self.threads_seq().last());
                        } else {
                            assert(self.free_list()[j] == free_before[j - 1]);
                        }
                    }
                }
                added += 1;
            }
            proof {
                assert forall|i: int|
                    0 <= i < self.threads_seq().len() && !((
                    #[trigger] self.threads_seq()[i]).spec_state() is Run)
                        && self.threads_seq()[i].queue_contents().len() == 0
                        implies self.free_list().contains(i as usize) by {
                    if i < base.len() {
                        assert(self.threads_seq()[i] == base[i]);
                    }
                }
            }
            let spent = crate::push_workers::worker_thread::elapsed_nanos(&tm);
            if new_thread_count > 0 {
                new_control_time = spent / (new_thread_count as u128);
            }
        }
        Ok(new_control_time)
    }

    /// Lets every running worker drain its batch. Afterwards no queue
    /// holds an item and nobody is in Run; each worker's load is
    /// untouched, its queued items having moved into its consumed record.
    pub fn process_running<F: Fn(V) -> T>(&mut self, f: &F)
        requires
            old(self).inv(),
            forall|i: int|
                0 <= i < old(self).threads_seq().len() ==> (#[trigger] old(self).threads_seq()[i]).queue_ok(*f),
        ensures
            final(self).inv(),
            final(self).max_threads_spec() == old(self).max_threads_spec(),
            final(self).free_list() == old(self).free_list(),
            final(self).threads_seq().len() == old(self).threads_seq().len(),
            forall|i: int|
                0 <= i < final(self).threads_seq().len() ==> {
                    let w = #[trigger] final(self).threads_seq()[i];
                    let w0 = old(self).threads_seq()[i];
                    &&& w.queue_contents().len() == 0
                    &&& !(w.spec_state() is Run)
                    &&& (w.spec_state() is Done) == (w0.spec_state() is Done)
                    &&& w.load() =~= w0.load()
                    &&& (w0.results_ok(*f) ==> w.results_ok(*f))
                },
            final(self).loads() =~= old(self).loads(),
            final(self).queued_total() == 0,
    {
        let n = self.threads.len();
        let mut idx: usize = 0;
        while idx < n
            invariant
                self.inv(),
                idx <= n,
                n == old(self).threads_seq().len(),
                self.threads_seq().len() == n,
                self.max_threads_spec() == old(self).max_threads_spec(),
                self.free_list() == old(self).free_list(),
                forall|i: int|
                    0 <= i < n ==> (#[trigger] old(self).threads_seq()[i]).queue_ok(*f),
                forall|i: int|
                    idx <= i < n ==> self.threads_seq()[i] == #[trigger] old(self).threads_seq()[i],
                forall|i: int|
                    0 <= i < idx ==> {
                        let w = #[trigger] self.threads_seq()[i];
                        let w0 = old(self).threads_seq()[i];
                        &&& w.queue_contents().len() == 0
                        &&& !(w.spec_state() is Run)
                        &&& (w.spec_state() is Done) == (w0.spec_state() is Done)
                        &&& w.load() =~= w0.load()
                        &&& (w0.results_ok(*f) ==> w.results_ok(*f))
                    },
            decreases n - idx,
        {
            let ghost pre = self.threads_seq();
            let running = self.is_running_at(idx);
            if running {
                proof {
                    assert(self.threads_seq()[idx as int] == old(self).threads_seq()[idx as int]);
                    assert(old(self).threads_seq()[idx as int].queue_ok(*f));
                }
                self.process_worker(idx, f);
            }
            proof {
                assert forall|i: int|
                    idx + 1 <= i < n implies self.threads_seq()[i] == #[trigger] old(
                    self,
                ).threads_seq()[i] by {
                    assert(self.threads_seq()[i] == pre[i]);
                }
                assert forall|i: int|
                    0 <= i < idx + 1 implies {
                        let w = #[trigger] self.threads_seq()[i];
                        let w0 = old(self).threads_seq()[i];
                        &&& w.queue_contents().len() == 0
                        &&& !(w.spec_state() is Run)
                        &&& (w.spec_state() is Done) == (w0.spec_state() is Done)
                        &&& w.load() =~= w0.load()
                        &&& (w0.results_ok(*f) ==> w.results_ok(*f))
                    } by {
                    if i < idx {
                        assert(self.threads_seq()[i] == pre[i]);
                    } else {
                        assert(pre[idx as int] == old(self).threads_seq()[idx as int]);
                        if !running {
                            assert(pre[idx as int].wf());
                            assert(self.threads_seq()[i] == pre[i]);
                        }
                    }
                }
            }
            idx += 1;
        }
        proof {
            lemma_loads_pointwise(old(self).threads_seq(), self.threads_seq());
            lemma_queues_len_zero(self.threads_seq());
        }
    }

    /// Shuts the pool down: each worker in turn finishes what it holds,
    /// reaches Done with a drained queue, is joined, and its outputs are
    /// absorbed into the collector. The collector ends up with outputs
    /// paired one-to-one against exactly the items the pool carried.
    pub fn join_all_threads<C: Collector<T>, F: Fn(V) -> T>(&mut self, f: &F) -> (r: Result<
        C,
        WorkThreadError,
    >)
        requires
            old(self).inv(),
            forall|i: int|
                0 <= i < old(self).threads_seq().len() ==> (#[trigger] old(self).threads_seq()[i]).queue_ok(*f),
            forall|i: int|
                0 <= i < old(self).threads_seq().len() ==> (#[trigger] old(self).threads_seq()[i]).results_ok(*f),
            forall|i: int|
                0 <= i < old(self).threads_seq().len() ==> !((#[trigger] old(self).threads_seq()[i]).spec_state() is Done),
        ensures
            final(self).threads_seq().len() == 0,
            r matches Ok(c) && exists|ins: Seq<V>, outs: Seq<T>|
                {
                    &&& pairs_valid(*f, ins, outs)
                    &&& ins.to_multiset() =~= old(self).loads()
                    &&& c.contents() =~= outs.to_multiset()
                },
    {
        let mut results = C::initialize();
        let ghost mut acc_ins: Seq<V> = Seq::empty();
        let ghost mut acc_outs: Seq<T> = Seq::empty();
        proof {
            assert forall|a: V| acc_ins.to_multiset().count(a) == 0 by {
                assert(!acc_ins.contains(a));
            }
            assert forall|a: T| acc_outs.to_multiset().count(a) == 0 by {
                assert(!acc_outs.contains(a));
            }
        }
        while self.threads.len() != 0
            invariant
                forall|i: int|
                    0 <= i < self.threads_seq().len() ==> {
                        let w = #[trigger] self.threads_seq()[i];
                        &&& w.wf()
                        &&& w.queue_ok(*f)
                        &&& w.results_ok(*f)
                        &&& !(w.spec_state() is Done)
                    },
                pairs_valid(*f, acc_ins, acc_outs),
                acc_ins.to_multiset().add(loads_ms(self.threads_seq())) =~= old(self).loads(),
                results.contents() =~= acc_outs.to_multiset(),
            decreases self.threads_seq().len(),
        {
            let ghost remaining_before = self.threads_seq();
            let popped = self.threads.pop();
            match popped {
                Some(mut thread) => {
                    proof {
                        assert(remaining_before.drop_last() =~= self.threads_seq());
                        assert(thread == remaining_before.last());
                    }
                    let running = thread.is_running();
                    if running {
                        thread.process(f);
                    }
                    thread.done();
                    let ghost t_ins = thread.inputs_seq();
                    let ghost t_outs = thread.outputs_seq();
                    let ghost t_load = thread.load();
                    proof {
                        assert(t_load =~= remaining_before.last().load());
                        assert(t_ins.to_multiset() =~= t_load) by {
                            assert forall|a: V|
                                t_ins.to_multiset().count(a) == t_load.count(a) by {
                                assert forall|a2: V|
                                    thread.queue_contents().to_multiset().count(a2) == 0 by {
                                    broadcast use vstd::seq_lib::group_to_multiset_ensures;

                                    assert(!thread.queue_contents().contains(a2));
                                }
                            }
                        }
                    }
                    let joined = thread.join();
                    match joined {
                        Ok(outs_w) => {
                            results.extend_items(outs_w);
                            proof {
                                lemma_pairs_valid_concat(*f, acc_ins, acc_outs, t_ins, t_outs);
                                vstd::seq_lib::lemma_multiset_commutative(acc_ins, t_ins);
                                vstd::seq_lib::lemma_multiset_commutative(acc_outs, t_outs);
                                acc_ins = acc_ins + t_ins;
                                acc_outs = acc_outs + t_outs;
                                assert(acc_ins.to_multiset().add(loads_ms(self.threads_seq()))
                                    =~= old(self).loads());
                            }
                        },
                        Err(_) => {
                            proof {
                                assert(false);
                            }
                            return Err(WorkThreadError::ThreadJoin);
                        },
                    }
                },
                None => {},
            }
        }
        proof {
            assert forall|a: V|
                acc_ins.to_multiset().count(a) == old(self).loads().count(a) by {
                assert(acc_ins.to_multiset().add(loads_ms(self.threads_seq())).count(a) == old(self).loads().count(a));
            }
        }
        Ok(results)
    }

}

} // verus!
