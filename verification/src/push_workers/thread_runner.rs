//! The worker-thread side of the protocol: a runner owns the secondary
//! handle to its queue and the shared user function, watches the state
//! word, and drains whatever batch the controller assigns. In the
//! concurrent runtime the same loop runs on its own OS thread and parks or
//! spins where this verified form hands control back.

use vstd::prelude::*;
use vstd::seq_lib::group_to_multiset_ensures;
use crate::accessors::read_accessor::ReadAccessor;
use crate::push_workers::worker_thread::{pairs_valid, Coordination};

verus! {

broadcast use group_to_multiset_ensures;

pub struct ThreadRunner<F, V, T> {
    pos: usize,
    f: F,
    secondary_q: ReadAccessor<V>,
    outputs: core::marker::PhantomData<T>,
}

impl<F, V, T> ThreadRunner<F, V, T> where F: Fn(V) -> T {
    pub closed spec fn pos_spec(&self) -> usize {
        self.pos
    }

    pub closed spec fn func(&self) -> F {
        self.f
    }

    pub closed spec fn queue_contents(&self) -> Seq<V> {
        self.secondary_q.contents()
    }

    pub closed spec fn spec_state(&self) -> Coordination {
        self.secondary_q.spec_state()
    }

    pub closed spec fn accessor_ok(&self) -> bool {
        self.secondary_q.unblocked()
    }

    /// Every queued item may be handed to the user function.
    pub open spec fn queue_ok(&self) -> bool {
        forall|i: int|
            0 <= i < self.queue_contents().len() ==> call_requires(
                self.func(),
                (#[trigger] self.queue_contents()[i],),
            )
    }

    pub fn new(pos: usize, secondary_q: ReadAccessor<V>, f: F) -> (r: Self)
        ensures
            r.pos_spec() == pos,
            r.func() == f,
            r.queue_contents() == secondary_q.contents(),
            r.spec_state() == secondary_q.spec_state(),
            r.accessor_ok() == secondary_q.unblocked(),
    {
        ThreadRunner { pos, f, secondary_q, outputs: core::marker::PhantomData }
    }

    /// Drains the queue, applying the user function to each item in pop
    /// order — the reverse of the buffer — and appending the results in
    /// that order, then reports Waiting. In the concurrent runtime this
    /// holds a read lock on the shared function while it works.
    fn process(&mut self, final_values: &mut Vec<T>, processed: &mut usize)
        requires
            old(self).accessor_ok(),
            old(self).spec_state() is Run,
            old(self).queue_ok(),
        ensures
            final(self).accessor_ok(),
            final(self).pos_spec() == old(self).pos_spec(),
            final(self).func() == old(self).func(),
            final(self).spec_state() is Waiting,
            final(self).queue_contents().len() == 0,
            *final(processed) == *old(processed),
            final(final_values)@.len() == old(final_values)@.len() + old(
                self,
            ).queue_contents().len(),
            final(final_values)@.take(old(final_values)@.len() as int) == old(final_values)@,
            pairs_valid(
                old(self).func(),
                old(self).queue_contents().reverse(),
                final(final_values)@.skip(old(final_values)@.len() as int),
            ),
    {
        let ghost origq = self.queue_contents();
        let ghost base = final_values@;
        proof {
            assert(self.queue_contents() =~= origq.take(self.queue_contents().len() as int));
            assert(origq.skip(self.queue_contents().len() as int).reverse()
                =~= Seq::<V>::empty());
            assert(final_values@.take(base.len() as int) =~= base);
            assert(final_values@.skip(base.len() as int) =~= Seq::<T>::empty());
        }
        let mut more = !self.secondary_q.is_empty();
        while more
            invariant
                self.accessor_ok(),
                self.spec_state() is Run,
                self.pos_spec() == old(self).pos_spec(),
                self.func() == old(self).func(),
                more == (self.queue_contents().len() > 0),
                self.queue_ok(),
                self.queue_contents().len() <= origq.len(),
                self.queue_contents() == origq.take(self.queue_contents().len() as int),
                final_values@.len() == base.len() + origq.len() - self.queue_contents().len(),
                final_values@.take(base.len() as int) == base,
                pairs_valid(
                    self.func(),
                    origq.skip(self.queue_contents().len() as int).reverse(),
                    final_values@.skip(base.len() as int),
                ),
            decreases self.queue_contents().len(),
        {
            let ghost k = self.queue_contents().len() as int;
            let ghost consumed = origq.skip(k).reverse();
            let ghost outs_old = final_values@.skip(base.len() as int);
            let popped = self.secondary_q.pop();
            match popped {
                Some(value) => {
                    let ghost gv = value;
                    let out = (self.f)(value);
                    final_values.push(out);
                    proof {
                        assert(gv == origq[k - 1]);
                        assert(self.queue_contents() =~= origq.take(k - 1));
                        let consumed2 = origq.skip(k - 1).reverse();
                        assert(consumed2 =~= consumed.push(gv));
                        assert(final_values@.take(base.len() as int) =~= base);
                        let outs_new = final_values@.skip(base.len() as int);
                        assert(outs_new =~= outs_old.push(out));
                        assert forall|i: int| 0 <= i < consumed2.len() implies call_ensures(
                            self.func(),
                            (consumed2[i],),
                            #[trigger] outs_new[i],
                        ) by {
                            if i < consumed.len() {
                                assert(consumed2[i] == consumed[i]);
                                assert(outs_new[i] == outs_old[i]);
                            } else {
                                assert(consumed2[i] == gv);
                                assert(outs_new[i] == out);
                            }
                        }
                    }
                },
                None => {},
            }
            more = !self.secondary_q.is_empty();
        }
        self.secondary_q.set_state(Coordination::Waiting);
        proof {
            assert(origq.skip(0).reverse() =~= origq.reverse());
        }
    }

    /// The worker loop: acts on the state word until no further progress
    /// can be made without the controller. A Run batch is drained in pop
    /// order and acknowledged with Waiting; Done ends the loop; Waiting
    /// and Park return control (the concurrent runtime spins or parks
    /// there instead); a recorded failure also returns, and the runtime
    /// propagates it as a panic.
    pub fn run(&mut self) -> (r: Vec<T>)
        requires
            old(self).accessor_ok(),
            old(self).queue_ok(),
        ensures
            final(self).accessor_ok(),
            final(self).pos_spec() == old(self).pos_spec(),
            final(self).func() == old(self).func(),
            old(self).spec_state() is Run ==> {
                &&& final(self).spec_state() is Waiting
                &&& final(self).queue_contents().len() == 0
                &&& r@.len() == old(self).queue_contents().len()
                &&& pairs_valid(old(self).func(), old(self).queue_contents().reverse(), r@)
            },
            !(old(self).spec_state() is Run) ==> r@ == Seq::<T>::empty() && *final(self) == *old(
                self,
            ),
    {
        let mut final_values: Vec<T> = Vec::new();
        let mut processed: usize = 0;
        let state = self.secondary_q.state();
        match state {
            Coordination::Run => {
                self.process(&mut final_values, &mut processed);
                proof {
                    assert(final_values@.skip(0) =~= final_values@);
                }
            },
            _ => {
                proof {
                    assert(final_values@ =~= Seq::<T>::empty());
                }
            },
        }
        final_values
    }

    pub fn pos(&self) -> (r: usize)
        ensures
            r == self.pos_spec(),
    {
        self.pos
    }
}

} // verus!
