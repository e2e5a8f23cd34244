//! The controller drives a job to completion: it spawns the initial
//! workers and hands them the dispenser's chunks, rebalances load by
//! stealing halves from heavily loaded workers for idle ones — growing the
//! pool when a worker's projected completion time exceeds the measured
//! cost of spinning one up — and finally joins the pool, gathering every
//! worker's outputs. Its contract accounts for each source item exactly
//! once: the collected outputs pair one-to-one with a permutation of the
//! source.

use vstd::prelude::*;
use vstd::seq_lib::group_to_multiset_ensures;
use crate::collector::Collector;
use crate::errors::WorkThreadError;
use crate::iterators::iterator::AtomicIterator;
use crate::push_workers::priorisation::ThreadPrioritization;
use crate::push_workers::thread_manager::{
    lemma_loads_update_count,
    lemma_queues_len_ge,
    lemma_queues_len_update,
    lemma_queues_len_zero,
    ThreadManager,
};
use crate::push_workers::worker_thread::{elapsed_nanos, instant_now, pairs_valid};

verus! {

broadcast use group_to_multiset_ensures;

/// How many workers a job starts with.
pub const INITIAL_WORKERS: usize = 2;

/// Queues at or below this length are not worth stealing from.
pub const MIN_QUEUE_LENGTH: usize = 2;

/// Every worker of the pool holds only items the user function accepts,
/// carries outputs paired against the items it consumed, and is not yet
/// terminal.
pub open spec fn pool_ok<V, T, F: Fn(V) -> T>(f: F, tm: ThreadManager<V, T>) -> bool {
    forall|i: int|
        0 <= i < tm.threads_seq().len() ==> {
            let w = #[trigger] tm.threads_seq()[i];
            &&& w.queue_ok(f)
            &&& w.results_ok(f)
            &&& !(w.spec_state() is Done)
        }
}

/// Every worker on the idle list is resting with a drained queue.
pub open spec fn free_list_ok<V, T>(tm: ThreadManager<V, T>) -> bool {
    forall|j: int|
        0 <= j < tm.free_list().len() ==> {
            let p = #[trigger] tm.free_list()[j];
            &&& (tm.threads_seq()[p as int].spec_state() is Waiting)
            &&& tm.threads_seq()[p as int].queue_contents().len() == 0
        }
}

/// Owns the user function and the dispenser until the job runs.
pub struct WorkerController<F, I> {
    f: F,
    values: I,
    avg_task_len: Option<usize>,
    max_threads: usize,
}

impl<F, V, T, I> WorkerController<F, I> where
    F: Fn(V) -> T,
    I: AtomicIterator<AtomicItem = V>,
 {
    pub closed spec fn func(&self) -> F {
        self.f
    }

    pub closed spec fn source(&self) -> I {
        self.values
    }

    pub closed spec fn max_threads_spec(&self) -> usize {
        self.max_threads
    }

    pub closed spec fn avg_spec(&self) -> Option<usize> {
        self.avg_task_len
    }

    /// Every item the dispenser will hand out may be given to the user
    /// function.
    pub open spec fn source_ok(&self) -> bool {
        forall|i: int|
            0 <= i < self.source().remaining().len() ==> call_requires(
                self.func(),
                (#[trigger] self.source().remaining()[i],),
            )
    }

    pub fn new(f: F, values: I) -> (r: Self)
        ensures
            r.func() == f,
            r.source() == values,
            r.avg_spec() is None,
            r.max_threads_spec() == crate::utils::DEFAULT_THREADS_NUM
                * crate::utils::CPU_2_THREAD_RATIO,
    {
        WorkerController {
            f,
            values,
            avg_task_len: None,
            max_threads: crate::utils::max_threads(),
        }
    }

    /// Caps the pool at `limit`, itself capped by the library's ceiling.
    pub fn set_max_threads(&mut self, limit: usize)
        ensures
            final(self).func() == old(self).func(),
            final(self).source() == old(self).source(),
            final(self).avg_spec() == old(self).avg_spec(),
            final(self).max_threads_spec() as int == if (limit as int)
                < crate::utils::DEFAULT_THREADS_NUM * crate::utils::CPU_2_THREAD_RATIO {
                limit as int
            } else {
                crate::utils::DEFAULT_THREADS_NUM * crate::utils::CPU_2_THREAD_RATIO
            },
    {
        let ceiling = crate::utils::max_threads();
        self.max_threads = if limit < ceiling {
            limit
        } else {
            ceiling
        };
    }

    /// Size of the first batch sent out, once one was.
    pub fn avg_task_length(&self) -> (r: Option<usize>)
        ensures
            r == self.avg_spec(),
    {
        self.avg_task_len
    }

    pub fn set_avg_task_length(&mut self, size: usize)
        ensures
            final(self).func() == old(self).func(),
            final(self).source() == old(self).source(),
            final(self).max_threads_spec() == old(self).max_threads_spec(),
            final(self).avg_spec() == Some(size),
    {
        self.avg_task_len = Some(size);
    }

    /// Pulls the next chunk from the dispenser.
    pub fn next_task(&mut self) -> (r: Option<Vec<V>>)
        ensures
            final(self).func() == old(self).func(),
            final(self).avg_spec() == old(self).avg_spec(),
            final(self).max_threads_spec() == old(self).max_threads_spec(),
            (r is None) <==> old(self).source().remaining().len() == 0,
            r is None ==> final(self).source().remaining() == old(self).source().remaining(),
            r matches Some(c) ==> c@.len() >= 1 && final(self).source().remaining().len()
                + c@.len() == old(self).source().remaining().len() && final(self).source().remaining().to_multiset().add(c@.to_multiset()) == old(self).source().remaining().to_multiset(),
    {
        self.values.atomic_pull()
    }

    /// Pulls the next chunk, if any, into the staging buffer.
    pub fn add_next_task(&mut self, vec_tasks: &mut Vec<Vec<V>>)
        ensures
            final(self).func() == old(self).func(),
            final(self).avg_spec() == old(self).avg_spec(),
            final(self).max_threads_spec() == old(self).max_threads_spec(),
            old(self).source().remaining().len() == 0 ==> final(vec_tasks)@ == old(vec_tasks)@
                && final(self).source().remaining() == old(self).source().remaining(),
            old(self).source().remaining().len() > 0 ==> final(vec_tasks)@.len() == old(vec_tasks)@.len() + 1 && final(vec_tasks)@.drop_last() == old(vec_tasks)@ && final(self).source().remaining().to_multiset().add(
                final(vec_tasks)@.last()@.to_multiset(),
            ) == old(self).source().remaining().to_multiset(),
    {
        let pulled = self.next_task();
        match pulled {
            Some(vec) => {
                vec_tasks.push(vec);
            },
            None => {},
        }
    }

    /// Phase one: spawns the initial workers, drains the dispenser in
    /// chunks alternating between their batches, hands each worker its
    /// batch — replace the drained buffer, then signal Run — and records
    /// the amortised spawn cost as the initial control time. A worker with
    /// no work goes straight onto the idle list.
    fn primary_queue_distribution(&mut self, tm: &mut ThreadManager<V, T>) -> (r: Result<
        u128,
        WorkThreadError,
    >)
        requires
            old(self).source_ok(),
            old(tm).inv(),
            old(tm).threads_seq().len() == 0,
            old(tm).free_list().len() == 0,
        ensures
            r is Ok,
            final(self).func() == old(self).func(),
            final(self).max_threads_spec() == old(self).max_threads_spec(),
            final(self).source().remaining().len() == 0,
            final(tm).inv(),
            final(tm).threads_seq().len() == INITIAL_WORKERS as int,
            final(tm).loads() =~= old(self).source().remaining().to_multiset(),
            pool_ok(old(self).func(), *final(tm)),
            free_list_ok(*final(tm)),
            final(tm).free_distinct(),
            (final(self).avg_spec() is None) ==> final(tm).queued_total() == 0,
    {
        let tm_start = instant_now();
        let ghost orig = self.source().remaining();
        let mut batch0: Vec<V> = Vec::new();
        let mut batch1: Vec<V> = Vec::new();
        let mut turn0 = true;
        let mut active = true;
        while active
            invariant
                self.func() == old(self).func(),
                self.max_threads_spec() == old(self).max_threads_spec(),
                self.avg_spec() == old(self).avg_spec(),
                batch0@.to_multiset().add(batch1@.to_multiset()).add(
                    self.source().remaining().to_multiset(),
                ) =~= orig.to_multiset(),
                forall|k: int|
                    0 <= k < batch0@.len() ==> call_requires(
                        self.func(),
                        (#[trigger] batch0@[k],),
                    ),
                forall|k: int|
                    0 <= k < batch1@.len() ==> call_requires(
                        self.func(),
                        (#[trigger] batch1@[k],),
                    ),
                self.source_ok(),
                !active ==> self.source().remaining().len() == 0,
                turn0 || batch0@.len() > 0,
                batch0@.len() == 0 ==> batch1@.len() == 0,
            decreases self.source().remaining().len() + (if active {
                1int
            } else {
                0int
            }),
        {
            let ghost rem_before = self.source().remaining();
            let pulled = self.next_task();
            match pulled {
                Some(chunk) => {
                    let mut chunk = chunk;
                    proof {
                        assert forall|k: int|
                            0 <= k < chunk@.len() implies call_requires(
                            self.func(),
                            (#[trigger] chunk@[k],),
                        ) by {
                            assert(chunk@.contains(chunk@[k]));
                            assert(chunk@.to_multiset().count(chunk@[k]) > 0);
                            assert(rem_before.to_multiset().count(chunk@[k]) > 0);
                            assert(rem_before.contains(chunk@[k]));
                            let w = choose|w: int|
                                0 <= w < rem_before.len() && rem_before[w] == chunk@[k];
                            assert(call_requires(self.func(), (rem_before[w],)));
                        }
                        assert forall|k: int|
                            0 <= k < self.source().remaining().len() implies call_requires(
                            self.func(),
                            (#[trigger] self.source().remaining()[k],),
                        ) by {
                            let rem = self.source().remaining();
                            assert(rem.contains(rem[k]));
                            assert(rem.to_multiset().count(rem[k]) > 0);
                            assert(rem_before.to_multiset().count(rem[k]) > 0);
                            assert(rem_before.contains(rem[k]));
                            let w = choose|w: int|
                                0 <= w < rem_before.len() && rem_before[w] == rem[k];
                            assert(call_requires(self.func(), (rem_before[w],)));
                        }
                    }
                    let ghost b0 = batch0@;
                    let ghost b1 = batch1@;
                    let ghost ch = chunk@;
                    if turn0 {
                        batch0.append(&mut chunk);
                        proof {
                            vstd::seq_lib::lemma_multiset_commutative(b0, ch);
                            assert(batch0@ == b0 + ch);
                            assert(batch0@.to_multiset().add(batch1@.to_multiset()).add(
                                self.source().remaining().to_multiset(),
                            ) =~= orig.to_multiset());
                            assert forall|k: int|
                                0 <= k < batch0@.len() implies call_requires(
                                self.func(),
                                (#[trigger] batch0@[k],),
                            ) by {
                                if k < b0.len() {
                                    assert(batch0@[k] == b0[k]);
                                } else {
                                    assert(batch0@[k] == ch[k - b0.len()]);
                                }
                            }
                        }
                    } else {
                        batch1.append(&mut chunk);
                        proof {
                            vstd::seq_lib::lemma_multiset_commutative(b1, ch);
                            assert(batch1@ == b1 + ch);
                            assert(batch0@.to_multiset().add(batch1@.to_multiset()).add(
                                self.source().remaining().to_multiset(),
                            ) =~= orig.to_multiset());
                            assert forall|k: int|
                                0 <= k < batch1@.len() implies call_requires(
                                self.func(),
                                (#[trigger] batch1@[k],),
                            ) by {
                                if k < b1.len() {
                                    assert(batch1@[k] == b1[k]);
                                } else {
                                    assert(batch1@[k] == ch[k - b1.len()]);
                                }
                            }
                        }
                    }
                    turn0 = !turn0;
                },
                None => {
                    active = false;
                },
            }
        }
        let _r0 = tm.add_thread();
        let _r1 = tm.add_thread();
        let control_time = elapsed_nanos(&tm_start) / (INITIAL_WORKERS as u128);
        proof {
            assert(tm.threads_seq().len() == 2);
            assert(tm.threads_seq()[0].queue_contents().len() == 0);
            assert(tm.threads_seq()[0].spec_state() is Waiting);
            assert(tm.threads_seq()[1].queue_contents().len() == 0);
            assert(tm.threads_seq()[1].spec_state() is Waiting);
            assert forall|a: V| tm.loads().count(a) == 0 by {
                crate::push_workers::thread_manager::lemma_loads_ge_count(
                    tm.threads_seq(),
                    0,
                    a,
                );
            }
        }
        let ghost pre_a = *tm;
        let n0 = batch0.len();
        let ghost gb0 = batch0@;
        let ghost gb1 = batch1@;
        if n0 > 0 {
            self.set_avg_task_length(n0);
            let _put = tm.assign_to(0, batch0);
            proof {
                assert forall|a: V| tm.loads().count(a) == gb0.to_multiset().count(a) by {
                    lemma_loads_update_count(pre_a.threads_seq(), tm.threads_seq(), 0, a);
                    assert(pre_a.threads_seq()[0].load().count(a) == 0) by {
                        assert(!pre_a.threads_seq()[0].inputs_seq().contains(a));
                        assert(!pre_a.threads_seq()[0].queue_contents().contains(a));
                    }
                    assert(tm.threads_seq()[0].load().count(a) == gb0.to_multiset().count(a))
                        by {
                        assert(!tm.threads_seq()[0].inputs_seq().contains(a));
                    }
                    assert(pre_a.loads().count(a) == 0);
                }
            }
        } else {
            tm.add_to_free_queue(0);
            proof {
                assert forall|a: V| tm.loads().count(a) == gb0.to_multiset().count(a) by {
                    assert(tm.threads_seq() == pre_a.threads_seq());
                    assert(pre_a.loads().count(a) == 0);
                    assert(!gb0.contains(a));
                }
            }
        }
        proof {
            assert forall|a: V| tm.loads().count(a) == gb0.to_multiset().count(a) by {}
        }
        let ghost mid = *tm;
        let n1 = batch1.len();
        if n1 > 0 {
            let _put = tm.assign_to(1, batch1);
            proof {
                assert forall|a: V|
                    tm.loads().count(a) == gb0.to_multiset().count(a) + gb1.to_multiset().count(
                        a,
                    ) by {
                    lemma_loads_update_count(mid.threads_seq(), tm.threads_seq(), 1, a);
                    assert(mid.threads_seq()[1].load().count(a) == 0) by {
                        assert(!mid.threads_seq()[1].inputs_seq().contains(a));
                        assert(!mid.threads_seq()[1].queue_contents().contains(a));
                    }
                    assert(tm.threads_seq()[1].load().count(a) == gb1.to_multiset().count(a))
                        by {
                        assert(!tm.threads_seq()[1].inputs_seq().contains(a));
                    }
                }
            }
        } else {
            tm.add_to_free_queue(1);
            proof {
                assert forall|a: V|
                    tm.loads().count(a) == gb0.to_multiset().count(a) + gb1.to_multiset().count(
                        a,
                    ) by {
                    assert(tm.threads_seq() == mid.threads_seq());
                    assert(!gb1.contains(a));
                }
            }
        }
        proof {
            assert forall|a: V|
                tm.loads().count(a) == old(self).source().remaining().to_multiset().count(
                    a,
                ) by {
                assert(gb0.to_multiset().add(gb1.to_multiset()).add(
                    self.source().remaining().to_multiset(),
                ) =~= orig.to_multiset());
                assert(self.source().remaining().to_multiset().count(a) == 0) by {
                    assert(!self.source().remaining().contains(a));
                }
            }
            assert(tm.loads() =~= old(self).source().remaining().to_multiset());
            assert(tm.free_distinct());
            if self.avg_spec() is None {
                assert(gb0.len() == 0);
                assert(gb1.len() == 0);
                lemma_queues_len_zero(tm.threads_seq());
            }
            assert forall|i: int|
                0 <= i < tm.threads_seq().len() implies {
                    let w = #[trigger] tm.threads_seq()[i];
                    &&& w.queue_ok(old(self).func())
                    &&& w.results_ok(old(self).func())
                    &&& !(w.spec_state() is Done)
                } by {
                let w = tm.threads_seq()[i];
                assert(w.outputs_seq().len() == 0 && w.inputs_seq().len() == 0);
            }
        }
        Ok(control_time)
    }
    /// Phase two: while some worker holds more than the steal floor, pull
    /// half of the heaviest queue over to an idle worker — growing the
    /// pool when a busy worker's projected completion time exceeds the
    /// measured spawn cost — and let the running workers drain. The pool's
    /// load is conserved throughout, and at exit every queue is drained.
    fn redistribute_among_threads(&mut self, tm: &mut ThreadManager<V, T>, control_time: u128)
        requires
            old(tm).inv(),
            old(tm).threads_seq().len() > 0,
            pool_ok(old(self).func(), *old(tm)),
            free_list_ok(*old(tm)),
            old(tm).free_distinct(),
            (old(self).avg_spec() is None) ==> old(tm).queued_total() == 0,
        ensures
            final(self).func() == old(self).func(),
            final(self).source() == old(self).source(),
            final(tm).inv(),
            forall|a: V| final(tm).loads().count(a) == old(tm).loads().count(a),
            pool_ok(old(self).func(), *final(tm)),
            final(tm).queued_total() == 0,
            (old(self).avg_spec() is None) ==> final(tm).threads_seq().len() == old(
                tm,
            ).threads_seq().len(),
    {
        let avg = self.avg_task_length();
        let tlen = tm.thread_len();
        if tlen > 0 && avg.is_some() {
            let mut control_time = control_time;
            let mut stop_loop = false;
            while !stop_loop
                invariant
                    self.func() == old(self).func(),
                    self.source() == old(self).source(),
                    tm.inv(),
                    tm.threads_seq().len() > 0,
                    pool_ok(old(self).func(), *tm),
                    free_list_ok(*tm),
                    tm.free_distinct(),
                    forall|a: V| tm.loads().count(a) == old(tm).loads().count(a),
                    stop_loop ==> tm.queued_total() == 0,
                decreases (if stop_loop {
                    0int
                } else {
                    2 * (tm.queued_total() as int) + 1
                }),
            {
                let ghost qt0 = tm.queued_total();
                if !tm.has_free_threads() {
                    let ghost pre_r = *tm;
                    let refreshed = tm.refresh_free_threads(control_time);
                    match refreshed {
                        Ok(t) => {
                            control_time = t;
                        },
                        Err(_) => {},
                    }
                    proof {
                        assert forall|i: int|
                            0 <= i < tm.threads_seq().len() implies {
                                let w = #[trigger] tm.threads_seq()[i];
                                &&& w.queue_ok(old(self).func())
                                &&& w.results_ok(old(self).func())
                                &&& !(w.spec_state() is Done)
                            } by {
                            if i < pre_r.threads_seq().len() {
                                assert(tm.threads_seq()[i] == pre_r.threads_seq()[i]);
                            } else {
                                let w = tm.threads_seq()[i];
                                assert(w.inputs_seq().len() == 0 && w.outputs_seq().len() == 0);
                            }
                        }
                        assert forall|j: int|
                            0 <= j < tm.free_list().len() implies {
                                let p = #[trigger] tm.free_list()[j];
                                &&& (tm.threads_seq()[p as int].spec_state() is Waiting)
                                &&& tm.threads_seq()[p as int].queue_contents().len() == 0
                            } by {
                            let p = tm.free_list()[j];
                            let w = tm.threads_seq()[p as int];
                            assert(w.wf());
                            if (p as int) < pre_r.threads_seq().len() {
                                assert(w == pre_r.threads_seq()[p as int]);
                                assert(!(w.spec_state() is Done));
                            }
                        }
                    }
                }
                let ghost qt_stable = tm.queued_total();
                proof {
                    assert(qt_stable == qt0);
                }
                let snapshot = tm.snapshot_lengths();
                let ghost snap_tm = *tm;
                let ghost gsnap = snapshot@;
                proof {
                    assert forall|k: int|
                        0 <= k < gsnap.len() implies (#[trigger] gsnap[k]).1 <= qt_stable by {
                        lemma_queues_len_ge(snap_tm.threads_seq(), k);
                    }
                }
                let ranking = (ThreadPrioritization::Remaining).prioritize(snapshot);
                let mut idx: usize = 0;
                let mut scanning = true;
                while scanning && idx < ranking.len()
                    invariant
                        self.func() == old(self).func(),
                        self.source() == old(self).source(),
                        tm.inv(),
                        tm.threads_seq().len() == snap_tm.threads_seq().len(),
                        tm.threads_seq().len() > 0,
                        pool_ok(old(self).func(), *tm),
                        free_list_ok(*tm),
                        tm.free_distinct(),
                        forall|a: V| tm.loads().count(a) == old(tm).loads().count(a),
                        tm.queued_total() == qt_stable,
                        idx <= ranking@.len(),
                        ranking@.to_multiset() == gsnap.to_multiset(),
                        gsnap.len() == snap_tm.threads_seq().len(),
                        forall|k: int|
                            0 <= k < gsnap.len() ==> #[trigger] gsnap[k] == (
                                k as usize,
                                snap_tm.threads_seq()[k].queue_contents().len() as usize,
                            ),
                        forall|k: int|
                            0 <= k < gsnap.len() ==> (#[trigger] gsnap[k]).1 <= qt_stable,
                        qt_stable == 0 ==> (stop_loop || (scanning && idx == 0)),
                        stop_loop ==> !scanning,
                    decreases ranking@.len() - idx,
                {
                    let entry = ranking[idx];
                    let pos = entry.0;
                    let remaining = entry.1;
                    proof {
                        assert(ranking@.contains(entry));
                        assert(ranking@.to_multiset().count(entry) > 0);
                        assert(gsnap.to_multiset().count(entry) > 0);
                        assert(gsnap.contains(entry));
                        let k = choose|k: int| 0 <= k < gsnap.len() && gsnap[k] == entry;
                        assert(gsnap[k] == (
                            k as usize,
                            snap_tm.threads_seq()[k].queue_contents().len() as usize,
                        ));
                        assert(pos == k);
                        assert((pos as int) < tm.threads_seq().len());
                        assert(remaining <= qt_stable);
                    }
                    if remaining <= MIN_QUEUE_LENGTH {
                        if idx == 0 {
                            stop_loop = true;
                        }
                        scanning = false;
                        proof {
                            if qt_stable == 0 {
                                assert(idx == 0);
                            }
                        }
                    } else {
                        proof {
                            assert(qt_stable > 0);
                        }
                        let ghost pre_pop = *tm;
                        let popped = tm.pop_from_free_queue();
                        match popped {
                            None => {
                                scanning = false;
                            },
                            Some(freepos) => {
                                let ghost pre_steal = *tm;
                                proof {
                                    assert(pre_steal.threads_seq()[freepos as int].spec_state()
                                        is Waiting);
                                    assert(pre_steal.threads_seq()[
                                        freepos as int
                                    ].queue_contents().len() == 0);
                                }
                                let chunk_opt = tm.steal_half_from(pos);
                                match chunk_opt {
                                    Some(chunk) => {
                                        let ghost pre_assign = *tm;
                                        let ghost donor_before = pre_steal.threads_seq()[
                                            pos as int
                                        ];
                                        let ghost donor_after = pre_assign.threads_seq()[
                                            pos as int
                                        ];
                                        proof {
                                            assert(donor_before.queue_contents()
                                                =~= donor_after.queue_contents() + chunk@);
                                            vstd::seq_lib::lemma_multiset_commutative(
                                                donor_after.queue_contents(),
                                                chunk@,
                                            );
                                            assert(donor_before.spec_state() is Run);
                                            assert(freepos != pos);
                                            assert(pre_assign.threads_seq()[freepos as int]
                                                == pre_steal.threads_seq()[freepos as int]);
                                            assert forall|k: int|
                                                0 <= k < chunk@.len() implies call_requires(
                                                old(self).func(),
                                                (#[trigger] chunk@[k],),
                                            ) by {
                                                assert(chunk@[k] == donor_before.queue_contents()[
                                                    donor_after.queue_contents().len() + k
                                                ]);
                                                assert(donor_before.queue_ok(old(self).func()));
                                            }
                                        }
                                        let _put = tm.assign_to(freepos, chunk);
                                        proof {
                                            let receiver_before = pre_assign.threads_seq()[
                                                freepos as int
                                            ];
                                            let receiver_after = tm.threads_seq()[
                                                freepos as int
                                            ];
                                            assert forall|a: V|
                                                tm.loads().count(a) == old(tm).loads().count(
                                                    a,
                                                ) by {
                                                lemma_loads_update_count(
                                                    pre_steal.threads_seq(),
                                                    pre_assign.threads_seq(),
                                                    pos as int,
                                                    a,
                                                );
                                                lemma_loads_update_count(
                                                    pre_assign.threads_seq(),
                                                    tm.threads_seq(),
                                                    freepos as int,
                                                    a,
                                                );
                                                assert(donor_before.load().count(a)
                                                    == donor_after.load().count(a)
                                                    + chunk@.to_multiset().count(a));
                                                assert(receiver_after.load().count(a)
                                                    == receiver_before.load().count(a)
                                                    + chunk@.to_multiset().count(a)) by {
                                                    assert(!receiver_before.queue_contents().contains(a));
                                                }
                                            }
                                            lemma_queues_len_update(
                                                pre_steal.threads_seq(),
                                                pre_assign.threads_seq(),
                                                pos as int,
                                            );
                                            lemma_queues_len_update(
                                                pre_assign.threads_seq(),
                                                tm.threads_seq(),
                                                freepos as int,
                                            );
                                            assert(tm.queued_total() == qt_stable);
                                            assert forall|i: int|
                                                0 <= i < tm.threads_seq().len() implies {
                                                    let w = #[trigger] tm.threads_seq()[i];
                                                    &&& w.queue_ok(old(self).func())
                                                    &&& w.results_ok(old(self).func())
                                                    &&& !(w.spec_state() is Done)
                                                } by {
                                                if i == pos as int {
                                                    assert(tm.threads_seq()[i] == donor_after);
                                                    assert forall|k: int|
                                                        0 <= k < donor_after.queue_contents().len()
                                                            implies call_requires(
                                                        old(self).func(),
                                                        (#[trigger] donor_after.queue_contents()[k],),
                                                    ) by {
                                                        assert(donor_after.queue_contents()[k]
                                                            == donor_before.queue_contents()[k]);
                                                    }
                                                } else if i == freepos as int {
                                                    assert(receiver_after.queue_contents()
                                                        == chunk@);
                                                } else {
                                                    assert(tm.threads_seq()[i]
                                                        == pre_steal.threads_seq()[i]);
                                                }
                                            }
                                            assert forall|j: int|
                                                0 <= j < tm.free_list().len() implies {
                                                    let p = #[trigger] tm.free_list()[j];
                                                    &&& (tm.threads_seq()[p as int].spec_state()
                                                        is Waiting)
                                                    &&& tm.threads_seq()[
                                                        p as int
                                                    ].queue_contents().len() == 0
                                                } by {
                                                let p = tm.free_list()[j];
                                                assert(tm.free_list()
                                                    == pre_pop.free_list().drop_last());
                                                assert(p == pre_pop.free_list()[j]);
                                                assert(pre_pop.threads_seq()[
                                                    p as int
                                                ].spec_state() is Waiting);
                                                assert(freepos == pre_pop.free_list()[
                                                    pre_pop.free_list().len() - 1
                                                ]);
                                                assert(p != freepos);
                                                assert(p != pos) by {
                                                    assert(pre_pop.threads_seq()[
                                                        pos as int
                                                    ].spec_state() is Run);
                                                }
                                                assert(tm.threads_seq()[p as int]
                                                    == pre_pop.threads_seq()[p as int]);
                                            }
                                        }
                                    },
                                    None => {
                                        let ghost pre_back = *tm;
                                        tm.add_to_free_queue(freepos);
                                        proof {
                                            let donor0 = pre_steal.threads_seq()[pos as int];
                                            let donor1 = tm.threads_seq()[pos as int];
                                            assert(donor1.queue_contents()
                                                == donor0.queue_contents());
                                            assert(donor1.inputs_seq() == donor0.inputs_seq());
                                            assert(donor1.outputs_seq()
                                                == donor0.outputs_seq());
                                            assert(donor1.spec_state()
                                                == donor0.spec_state());
                                            lemma_queues_len_update(
                                                pre_steal.threads_seq(),
                                                tm.threads_seq(),
                                                pos as int,
                                            );
                                            assert(tm.queued_total() == qt_stable);
                                            assert forall|a: V|
                                                tm.loads().count(a) == old(tm).loads().count(
                                                    a,
                                                ) by {
                                                lemma_loads_update_count(
                                                    pre_steal.threads_seq(),
                                                    tm.threads_seq(),
                                                    pos as int,
                                                    a,
                                                );
                                                assert(donor1.load().count(a)
                                                    == donor0.load().count(a));
                                            }
                                            assert forall|i: int|
                                                0 <= i < tm.threads_seq().len() implies {
                                                    let w = #[trigger] tm.threads_seq()[i];
                                                    &&& w.queue_ok(old(self).func())
                                                    &&& w.results_ok(old(self).func())
                                                    &&& !(w.spec_state() is Done)
                                                } by {
                                                if i == pos as int {
                                                    assert(donor0.queue_ok(old(self).func()));
                                                    assert(donor0.results_ok(
                                                        old(self).func(),
                                                    ));
                                                } else {
                                                    assert(tm.threads_seq()[i]
                                                        == pre_steal.threads_seq()[i]);
                                                }
                                            }
                                            assert forall|j: int|
                                                0 <= j < tm.free_list().len() implies {
                                                    let p = #[trigger] tm.free_list()[j];
                                                    &&& (tm.threads_seq()[p as int].spec_state()
                                                        is Waiting)
                                                    &&& tm.threads_seq()[
                                                        p as int
                                                    ].queue_contents().len() == 0
                                                } by {
                                                let p = tm.free_list()[j];
                                                if j == 0 {
                                                    assert(p == freepos);
                                                } else {
                                                    assert(p == pre_back.free_list()[j - 1]);
                                                    assert(pre_back.free_list()[j - 1]
                                                        == pre_pop.free_list()[j - 1]);
                                                    assert(pre_pop.threads_seq()[
                                                        p as int
                                                    ].spec_state() is Waiting);
                                                }
                                                if p == pos {
                                                    assert(tm.threads_seq()[p as int].spec_state()
                                                        == donor0.spec_state());
                                                } else {
                                                    assert(tm.threads_seq()[p as int]
                                                        == pre_steal.threads_seq()[p as int]);
                                                }
                                            }
                                        }
                                    },
                                }
                            },
                        }
                    }
                    idx += 1;
                }
                let fref = &self.f;
                proof {
                    assert forall|i: int|
                        0 <= i < tm.threads_seq().len() implies (
                        #[trigger] tm.threads_seq()[i]).queue_ok(*fref) by {}
                }
                let ghost pre_p = *tm;
                tm.process_running(fref);
                proof {
                    assert forall|i: int|
                        0 <= i < tm.threads_seq().len() implies {
                            let w = #[trigger] tm.threads_seq()[i];
                            &&& w.queue_ok(old(self).func())
                            &&& w.results_ok(old(self).func())
                            &&& !(w.spec_state() is Done)
                        } by {
                        let w0 = pre_p.threads_seq()[i];
                        assert(w0.results_ok(old(self).func()));
                    }
                    assert forall|j: int|
                        0 <= j < tm.free_list().len() implies {
                            let p = #[trigger] tm.free_list()[j];
                            &&& (tm.threads_seq()[p as int].spec_state() is Waiting)
                            &&& tm.threads_seq()[p as int].queue_contents().len() == 0
                        } by {
                        let p = tm.free_list()[j];
                        let w = tm.threads_seq()[p as int];
                        assert(w.wf());
                        assert(!(w.spec_state() is Run));
                        assert(!(w.spec_state() is Done));
                    }
                    if !stop_loop {
                        assert(qt0 > 0);
                    }
                }
            }
        } else {
            proof {
                assert(tm.queued_total() == 0);
            }
        }
    }

    /// Runs the job to completion: distribute, redistribute, join. The
    /// collector comes back holding outputs that pair one-to-one — through
    /// the user function — with a permutation of the source items, so it
    /// has exactly as many elements as the source.
    pub fn run<C: Collector<T>>(self) -> (r: Result<C, WorkThreadError>)
        requires
            self.source_ok(),
        ensures
            r matches Ok(c) && exists|ins: Seq<V>, outs: Seq<T>|
                {
                    &&& pairs_valid(self.func(), ins, outs)
                    &&& ins.to_multiset() == self.source().remaining().to_multiset()
                    &&& c.contents() == outs.to_multiset()
                },
            r matches Ok(c) && c.contents().len() == self.source().remaining().len(),
    {
        let mut this = self;
        let ghost source0 = this.source().remaining();
        let ghost f0 = this.func();
        let mut tm: ThreadManager<V, T> = ThreadManager::new(this.max_threads);
        let distributed = this.primary_queue_distribution(&mut tm);
        let control_time = match distributed {
            Ok(t) => t,
            Err(e) => {
                proof {
                    assert(false);
                }
                return Err(e);
            },
        };
        this.redistribute_among_threads(&mut tm, control_time);
        let ghost loads_before_join = tm.loads();
        let joined: Result<C, WorkThreadError> = tm.join_all_threads(&this.f);
        match joined {
            Ok(c) => {
                proof {
                    let (ins, outs) = choose|ins: Seq<V>, outs: Seq<T>|
                        {
                            &&& pairs_valid(f0, ins, outs)
                            &&& ins.to_multiset() =~= loads_before_join
                            &&& c.contents() =~= outs.to_multiset()
                        };
                    assert(ins.to_multiset() == source0.to_multiset()) by {
                        assert forall|a: V|
                            ins.to_multiset().count(a) == source0.to_multiset().count(a) by {
                            assert(loads_before_join.count(a) == source0.to_multiset().count(
                                a,
                            ));
                        }
                        assert(ins.to_multiset() =~= source0.to_multiset());
                    }
                    assert(c.contents().len() == source0.len()) by {
                        assert(ins.to_multiset().len() == ins.len());
                        assert(outs.to_multiset().len() == outs.len());
                        assert(source0.to_multiset().len() == source0.len());
                    }
                }
                Ok(c)
            },
            Err(_) => {
                proof {
                    assert(false);
                }
                Err(WorkThreadError::ThreadJoin)
            },
        }
    }


}

} // verus!
