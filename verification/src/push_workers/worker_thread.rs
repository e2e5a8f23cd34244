use vstd::prelude::*;
use vstd::multiset::Multiset;
use vstd::seq_lib::group_to_multiset_ensures;
use crate::accessors::limit_queue::LimitAccessQueue;
use crate::accessors::read_accessor::{ReadAccessor, ReadAccessorType};
use crate::errors::WorkThreadError;

verus! {

/// Each output in `outs` is a possible result of applying `f` to the input
/// at the same position of `ins`: the record a finished job leaves behind.
pub open spec fn pairs_valid<V, T, F: Fn(V) -> T>(f: F, ins: Seq<V>, outs: Seq<T>) -> bool {
    &&& ins.len() == outs.len()
    &&& forall|i: int| 0 <= i < ins.len() ==> call_ensures(f, (ins[i],), #[trigger] outs[i])
}

/// Concatenating two valid job records gives a valid job record.
pub proof fn lemma_pairs_valid_concat<V, T, F: Fn(V) -> T>(
    f: F,
    ins1: Seq<V>,
    outs1: Seq<T>,
    ins2: Seq<V>,
    outs2: Seq<T>,
)
    requires
        pairs_valid(f, ins1, outs1),
        pairs_valid(f, ins2, outs2),
    ensures
        pairs_valid(f, ins1 + ins2, outs1 + outs2),
{
    assert forall|i: int| 0 <= i < (ins1 + ins2).len() implies call_ensures(
        f,
        ((ins1 + ins2)[i],),
        #[trigger] (outs1 + outs2)[i],
    ) by {
        if i < ins1.len() {
            assert((ins1 + ins2)[i] == ins1[i]);
            assert((outs1 + outs2)[i] == outs1[i]);
        } else {
            assert((ins1 + ins2)[i] == ins2[i - ins1.len()]);
            assert((outs1 + outs2)[i] == outs2[i - ins1.len()]);
        }
    }
}

/// State word shared by the controller and one worker. The controller owns
/// every transition except Run -> Waiting, which the worker performs when it
/// drains its queue. Done is terminal and is only reached from Waiting with
/// an empty queue; Unwind and Panic record a propagated failure.
#[derive(Clone, Copy, Debug, PartialEq, Eq, Structural)]
pub enum Coordination {
    Waiting,
    Park,
    Done,
    Unwind,
    Panic,
    Run,
}

impl Default for Coordination {
    fn default() -> (r: Self)
        ensures
            r is Waiting,
    {
        Coordination::Waiting
    }
}

/// Which changes of the state word the protocol admits. `empty` tells
/// whether the queue guarded by the word is drained: Done is reached only
/// from Waiting on a drained queue, Run only from a resting state, and a
/// failure or parking request may be recorded at any time.
pub open spec fn transition_allowed(from: Coordination, to: Coordination, empty: bool) -> bool {
    match to {
        Coordination::Waiting => from is Run || from is Waiting,
        Coordination::Run => from is Waiting || from is Park,
        Coordination::Done => from is Waiting && empty,
        Coordination::Park => true,
        Coordination::Unwind => true,
        Coordination::Panic => true,
    }
}

#[verifier::external_type_specification]
#[verifier::external_body]
pub struct ExInstant(std::time::Instant);

/// Relies on std::time::Instant::now: an opaque monotonic timestamp.
#[verifier::external_body]
pub(crate) fn instant_now() -> std::time::Instant {
    std::time::Instant::now()
}

/// Relies on std::time::Instant::elapsed: the nanoseconds that passed since
/// the instant was taken. Nothing can be promised about a clock reading.
#[verifier::external_body]
pub(crate) fn elapsed_nanos(t: &std::time::Instant) -> u128 {
    t.elapsed().as_nanos()
}

/// Per-batch bookkeeping: when the batch started, how long the queue was at
/// that point, and what earlier polls observed. The scheduler reads these to
/// estimate whether a worker will finish before a new worker could be
/// spun up.
pub struct QueueStats {
    process_time: std::time::Instant,
    start_queue_len: usize,
    last_poll_len: usize,
    times_polled: usize,
}

impl QueueStats {
    pub closed spec fn initial_len(&self) -> usize {
        self.start_queue_len
    }

    pub fn new(start_queue_len: usize, process_time: std::time::Instant) -> (r: Self)
        ensures
            r.initial_len() == start_queue_len,
    {
        QueueStats { process_time, start_queue_len, last_poll_len: 0usize, times_polled: 0usize }
    }

    pub fn initial_queue_len(&self) -> (r: usize)
        ensures
            r == self.initial_len(),
    {
        self.start_queue_len
    }

    /// Nanoseconds since the batch started; a clock reading, so no value can
    /// be promised of it.
    pub fn elapsed_time(&self) -> u128 {
        elapsed_nanos(&self.process_time)
    }

    /// Conservative integer estimate of the nanoseconds one task costs so
    /// far: elapsed time over tasks finished plus the one in flight.
    pub fn time_per_task_nanos(&self, curr_len: usize) -> (r: u128)
        requires
            curr_len <= self.initial_len(),
    {
        let done_plus_current: u128 = (self.start_queue_len - curr_len) as u128 + 1;
        self.elapsed_time() / done_plus_current
    }
}

/// One worker of the pool. The OS thread itself lives in the runtime
/// shell; here the worker owns the primary handle to its queue, the batch
/// statistics the scheduler reads, and the outputs it accumulated, so that
/// the whole protocol the controller drives over it is checked.
pub struct WorkerThread<V, T> {
    pos: usize,
    primary_q: ReadAccessor<V>,
    queue_stats: Option<QueueStats>,
    outputs: Vec<T>,
    inputs: Ghost<Seq<V>>,
}

impl<V, T> WorkerThread<V, T> {
    pub closed spec fn pos_spec(&self) -> usize {
        self.pos
    }

    pub closed spec fn queue_contents(&self) -> Seq<V> {
        self.primary_q.contents()
    }

    pub closed spec fn spec_state(&self) -> Coordination {
        self.primary_q.spec_state()
    }

    pub closed spec fn outputs_seq(&self) -> Seq<T> {
        self.outputs@
    }

    pub closed spec fn inputs_seq(&self) -> Seq<V> {
        self.inputs@
    }

    pub closed spec fn accessor_ok(&self) -> bool {
        self.primary_q.unblocked() && self.primary_q.accessor_type() is Primary
    }

    /// Protocol invariant: the worker holds the primary capability with the
    /// exclusion bit free between operations, it is resting, running or
    /// done, it reaches Done only drained, and a loaded queue means it is
    /// running.
    pub open spec fn wf(&self) -> bool {
        &&& self.accessor_ok()
        &&& (self.spec_state() is Waiting || self.spec_state() is Run || self.spec_state() is Done)
        &&& (self.spec_state() is Done ==> self.queue_contents().len() == 0)
        &&& (self.queue_contents().len() > 0 ==> self.spec_state() is Run)
    }

    /// The worker's accumulated outputs all came from applying `f` to the
    /// inputs it consumed, position by position.
    pub open spec fn results_ok<F: Fn(V) -> T>(&self, f: F) -> bool {
        pairs_valid(f, self.inputs_seq(), self.outputs_seq())
    }

    /// Every queued item may be handed to `f`.
    pub open spec fn queue_ok<F: Fn(V) -> T>(&self, f: F) -> bool {
        forall|i: int|
            0 <= i < self.queue_contents().len() ==> call_requires(
                f,
                (#[trigger] self.queue_contents()[i],),
            )
    }

    /// The worker's total load: what it already consumed and what still
    /// waits in its queue.
    pub open spec fn load(&self) -> Multiset<V> {
        self.inputs_seq().to_multiset().add(self.queue_contents().to_multiset())
    }

    /// Creates worker `pos` over a fresh queue. The runtime shell spawns
    /// the OS thread at this point and surfaces the system's refusal; the
    /// record itself cannot fail to come up.
    pub fn launch(pos: usize) -> (r: Result<Self, WorkThreadError>)
        ensures
            r matches Ok(w) && {
                &&& w.wf()
                &&& w.pos_spec() == pos
                &&& w.queue_contents().len() == 0
                &&& w.spec_state() is Waiting
                &&& w.outputs_seq() =~= Seq::<T>::empty()
                &&& w.inputs_seq() =~= Seq::<V>::empty()
            },
    {
        let q = LimitAccessQueue::new();
        let primary = ReadAccessor::new(q, ReadAccessorType::Primary);
        Ok(
            WorkerThread {
                pos,
                primary_q: primary,
                queue_stats: None,
                outputs: Vec::new(),
                inputs: Ghost(Seq::empty()),
            },
        )
    }

    /// Moves the state word, under the queue's transition protocol.
    pub fn signal(&mut self, state: Coordination)
        requires
            old(self).accessor_ok(),
            transition_allowed(
                old(self).spec_state(),
                state,
                old(self).queue_contents().len() == 0,
            ),
        ensures
            final(self).accessor_ok(),
            final(self).spec_state() == state,
            final(self).pos_spec() == old(self).pos_spec(),
            final(self).queue_contents() == old(self).queue_contents(),
            final(self).outputs_seq() == old(self).outputs_seq(),
            final(self).inputs_seq() == old(self).inputs_seq(),
            (state is Run || (old(self).queue_contents().len() == 0 && (state is Waiting
                || state is Done))) ==> final(self).wf(),
    {
        self.primary_q.set_state(state);
    }

    pub fn is_running(&mut self) -> (r: bool)
        requires
            old(self).accessor_ok(),
        ensures
            *final(self) == *old(self),
            r == (old(self).spec_state() is Run),
    {
        let s = self.primary_q.state();
        s == Coordination::Run
    }

    pub fn is_waiting(&mut self) -> (r: bool)
        requires
            old(self).accessor_ok(),
        ensures
            *final(self) == *old(self),
            r == (old(self).spec_state() is Waiting),
    {
        let s = self.primary_q.state();
        s == Coordination::Waiting
    }

    /// Assigns a new batch: the drained buffer is replaced by the batch and
    /// the worker is signalled to Run. An empty batch is refused as "no
    /// work".
    pub fn run(&mut self, values: Vec<V>) -> (r: Result<(), WorkThreadError>)
        requires
            old(self).wf(),
            old(self).queue_contents().len() == 0,
            old(self).spec_state() is Waiting,
        ensures
            final(self).pos_spec() == old(self).pos_spec(),
            final(self).outputs_seq() == old(self).outputs_seq(),
            final(self).inputs_seq() == old(self).inputs_seq(),
            final(self).wf(),
            values@.len() == 0 ==> ((r is Err) && final(self).queue_contents() == old(self).queue_contents() && final(self).spec_state() == old(self).spec_state() && final(self).stats_initial() == old(self).stats_initial()),
            values@.len() > 0 ==> ((r is Ok) && final(self).queue_contents() == values@ && (final(self).spec_state() is Run) && final(self).stats_initial() == Some(values@.len() as usize)),
    {
        if values.is_empty() {
            Err(WorkThreadError::Other("empty batch handed to worker".to_string()))
        } else {
            let n = values.len();
            self.queue_stats = Some(QueueStats::new(n, instant_now()));
            let _put = self.primary_q.replace(values);
            self.primary_q.set_state(Coordination::Run);
            Ok(())
        }
    }

    /// The worker's half of one batch: drains the queue, applying `f` to
    /// each item in pop order — the reverse of the buffer — and keeping
    /// the outputs in that order, then reports Waiting.
    pub fn process<F: Fn(V) -> T>(&mut self, f: &F)
        requires
            old(self).wf(),
            old(self).spec_state() is Run,
            old(self).queue_ok(*f),
        ensures
            final(self).wf(),
            final(self).pos_spec() == old(self).pos_spec(),
            final(self).spec_state() is Waiting,
            final(self).queue_contents().len() == 0,
            final(self).inputs_seq() == old(self).inputs_seq() + old(
                self,
            ).queue_contents().reverse(),
            final(self).outputs_seq().len() == old(self).outputs_seq().len() + old(
                self,
            ).queue_contents().len(),
            final(self).outputs_seq().take(old(self).outputs_seq().len() as int) == old(
                self,
            ).outputs_seq(),
            pairs_valid(
                *f,
                old(self).queue_contents().reverse(),
                final(self).outputs_seq().skip(old(self).outputs_seq().len() as int),
            ),
            final(self).inputs_seq().to_multiset() =~= old(self).inputs_seq().to_multiset().add(
                old(self).queue_contents().to_multiset(),
            ),
            old(self).results_ok(*f) ==> final(self).results_ok(*f),
    {
        let ghost origq = old(self).queue_contents();
        let ghost base_in = old(self).inputs_seq();
        let ghost base_out = old(self).outputs_seq();
        proof {
            assert(self.queue_contents() =~= origq.take(self.queue_contents().len() as int));
            assert(origq.skip(self.queue_contents().len() as int).reverse()
                =~= Seq::<V>::empty());
            assert(self.inputs_seq() =~= base_in + origq.skip(
                self.queue_contents().len() as int,
            ).reverse());
            assert(self.outputs_seq().take(base_out.len() as int) =~= base_out);
            assert(self.outputs_seq().skip(base_out.len() as int) =~= Seq::<T>::empty());
        }
        let mut more = !self.primary_q.is_empty();
        while more
            invariant
                self.accessor_ok(),
                self.spec_state() is Run,
                self.pos_spec() == old(self).pos_spec(),
                more == (self.queue_contents().len() > 0),
                self.queue_ok(*f),
                self.queue_contents().len() <= origq.len(),
                self.queue_contents() == origq.take(self.queue_contents().len() as int),
                self.inputs_seq() == base_in + origq.skip(
                    self.queue_contents().len() as int,
                ).reverse(),
                self.outputs_seq().len() == base_out.len() + origq.len()
                    - self.queue_contents().len(),
                self.outputs_seq().take(base_out.len() as int) == base_out,
                pairs_valid(
                    *f,
                    origq.skip(self.queue_contents().len() as int).reverse(),
                    self.outputs_seq().skip(base_out.len() as int),
                ),
            decreases self.queue_contents().len(),
        {
            let ghost k = self.queue_contents().len() as int;
            let ghost consumed = origq.skip(k).reverse();
            let ghost outs_old = self.outputs_seq().skip(base_out.len() as int);
            let popped = self.primary_q.pop();
            match popped {
                Some(value) => {
                    let ghost gv = value;
                    let out = f(value);
                    self.outputs.push(out);
                    proof {
                        self.inputs@ = self.inputs@.push(gv);
                        assert(gv == origq[k - 1]);
                        assert(self.queue_contents() =~= origq.take(k - 1));
                        let consumed2 = origq.skip(k - 1).reverse();
                        assert(consumed2 =~= consumed.push(gv));
                        assert(self.inputs_seq() =~= base_in + consumed2);
                        assert(self.outputs_seq().take(base_out.len() as int) =~= base_out);
                        let outs_new = self.outputs_seq().skip(base_out.len() as int);
                        assert(outs_new =~= outs_old.push(out));
                        assert forall|i: int| 0 <= i < consumed2.len() implies call_ensures(
                            *f,
                            (consumed2[i],),
                            #[trigger] outs_new[i],
                        ) by {
                            if i < consumed.len() {
                                assert(consumed2[i] == consumed[i]);
                                assert(outs_new[i] == outs_old[i]);
                            } else {
                                assert(consumed2[i] == gv);
                                assert(outs_new[i] == out);
                            }
                        }
                    }
                },
                None => {},
            }
            more = !self.primary_q.is_empty();
        }
        self.primary_q.set_state(Coordination::Waiting);
        proof {
            broadcast use group_to_multiset_ensures;

            assert(origq.skip(0).reverse() =~= origq.reverse());
            assert(self.inputs_seq() =~= base_in + origq.reverse());
            origq.lemma_reverse_to_multiset();
            vstd::seq_lib::lemma_multiset_commutative(base_in, origq.reverse());
            assert(self.inputs_seq().to_multiset() =~= base_in.to_multiset().add(
                origq.to_multiset(),
            ));
            if old(self).results_ok(*f) {
                lemma_pairs_valid_concat(
                    *f,
                    base_in,
                    base_out,
                    origq.reverse(),
                    self.outputs_seq().skip(base_out.len() as int),
                );
                assert(self.outputs_seq() =~= base_out + self.outputs_seq().skip(
                    base_out.len() as int,
                ));
                assert(self.results_ok(*f));
            }
        }
    }

    /// Marks the worker terminal. Done is reached only from Waiting with a
    /// drained queue: a worker never finishes with work still queued.
    pub fn done(&mut self)
        requires
            old(self).wf(),
            old(self).queue_contents().len() == 0,
            old(self).spec_state() is Waiting,
        ensures
            final(self).wf(),
            final(self).spec_state() is Done,
            final(self).pos_spec() == old(self).pos_spec(),
            final(self).queue_contents() == old(self).queue_contents(),
            final(self).outputs_seq() == old(self).outputs_seq(),
            final(self).inputs_seq() == old(self).inputs_seq(),
    {
        self.primary_q.set_state(Coordination::Done);
    }

    /// Surrenders the worker's outputs once it is Done. The runtime shell
    /// joins the OS thread here, where a propagated panic surfaces.
    pub fn join(self) -> (r: Result<Vec<T>, WorkThreadError>)
        requires
            self.spec_state() is Done,
        ensures
            r matches Ok(v) && v@ == self.outputs_seq(),
    {
        Ok(self.outputs)
    }

    pub fn pos(&self) -> (r: usize)
        ensures
            r == self.pos_spec(),
    {
        self.pos
    }

    pub fn queue_len(&mut self) -> (r: usize)
        requires
            old(self).accessor_ok(),
        ensures
            *final(self) == *old(self),
            r == old(self).queue_contents().len(),
    {
        self.primary_q.len()
    }

    pub fn is_queue_empty(&mut self) -> (r: bool)
        requires
            old(self).accessor_ok(),
        ensures
            *final(self) == *old(self),
            r == (old(self).queue_contents().len() == 0),
    {
        self.primary_q.is_empty()
    }

    /// Takes the worker's whole queue and restarts its batch statistics.
    pub fn steal(&mut self) -> (r: Option<Vec<V>>)
        requires
            old(self).accessor_ok(),
        ensures
            final(self).accessor_ok(),
            final(self).pos_spec() == old(self).pos_spec(),
            final(self).spec_state() == old(self).spec_state(),
            final(self).outputs_seq() == old(self).outputs_seq(),
            final(self).inputs_seq() == old(self).inputs_seq(),
            old(self).wf() ==> final(self).wf(),
            final(self).stats_initial() == Some(final(self).queue_contents().len() as usize),
            old(self).queue_contents().len() == 0 ==> r is None && final(self).queue_contents()
                == old(self).queue_contents(),
            old(self).queue_contents().len() > 0 ==> (r matches Some(v) && v@ == old(self).queue_contents() && final(self).queue_contents().len() == 0),
    {
        let res = self.primary_q.steal();
        let n = self.primary_q.len();
        self.queue_stats = Some(QueueStats::new(n, instant_now()));
        res
    }

    /// Takes the upper half of the worker's queue and restarts its batch
    /// statistics. The remainder and the stolen chunk together are exactly
    /// the pre-steal queue.
    pub fn steal_half(&mut self) -> (r: Option<Vec<V>>)
        requires
            old(self).accessor_ok(),
        ensures
            final(self).accessor_ok(),
            final(self).pos_spec() == old(self).pos_spec(),
            final(self).spec_state() == old(self).spec_state(),
            final(self).outputs_seq() == old(self).outputs_seq(),
            final(self).inputs_seq() == old(self).inputs_seq(),
            old(self).wf() ==> final(self).wf(),
            final(self).stats_initial() == Some(final(self).queue_contents().len() as usize),
            old(self).queue_contents().len() == 0 ==> r is None && final(self).queue_contents()
                == old(self).queue_contents(),
            old(self).queue_contents().len() > 0 ==> (r matches Some(v) && {
                let half = old(self).queue_contents().len() as int / 2;
                &&& v@ == old(self).queue_contents().skip(half)
                &&& final(self).queue_contents() == old(self).queue_contents().take(half)
                &&& old(self).queue_contents() =~= final(self).queue_contents() + v@
                &&& v@.len() > 0
            }),
    {
        let res = self.primary_q.steal_half();
        let n = self.primary_q.len();
        self.queue_stats = Some(QueueStats::new(n, instant_now()));
        res
    }

    /// Start length of the batch statistics most recently recorded.
    pub closed spec fn stats_initial(&self) -> Option<usize> {
        match self.queue_stats {
            Some(q) => Some(q.initial_len()),
            None => None,
        }
    }

    /// Start length of the batch most recently assigned, zero before any.
    pub fn queue_start_len(&self) -> (r: usize)
        ensures
            r == (match self.stats_initial() {
                Some(n) => n,
                None => 0usize,
            }),
    {
        match &self.queue_stats {
            Some(q) => q.initial_queue_len(),
            None => 0usize,
        }
    }

    /// Nanoseconds since the current batch started, where one is running;
    /// none before any batch was recorded. The value itself is a clock
    /// reading, so nothing is promised of it.
    pub fn get_elapsed_time(&self) -> (r: Option<u128>)
        ensures
            (r is Some) <==> (self.stats_initial() is Some),
    {
        match &self.queue_stats {
            Some(q) => Some(q.elapsed_time()),
            None => None,
        }
    }

    /// Integer projection of the nanoseconds this worker still needs for
    /// its queue: per-task cost so far times the queue length. A
    /// projection exists exactly when a batch was recorded and the queue
    /// has not grown past its recorded start; the value is a clock
    /// estimate, so nothing is promised of it.
    pub fn predicted_queue_nanos(&mut self) -> (r: Option<u128>)
        requires
            old(self).accessor_ok(),
        ensures
            *final(self) == *old(self),
            (r is Some) <==> (match old(self).stats_initial() {
                Some(n) => old(self).queue_contents().len() <= n,
                None => false,
            }),
    {
        let len = self.primary_q.len();
        match &self.queue_stats {
            Some(stats) => {
                if len <= stats.initial_queue_len() {
                    let per_task = stats.time_per_task_nanos(len);
                    match per_task.checked_mul(len as u128) {
                        Some(total) => Some(total),
                        None => Some(u128::MAX),
                    }
                } else {
                    None
                }
            },
            None => None,
        }
    }
}

} // verus!
