use vstd::prelude::*;
use crate::push_workers::worker_thread::{transition_allowed, Coordination};

verus! {

/// Shared FIFO-ish buffer a worker drains and the controller refills or
/// steals from. Every buffer access — length queries included — happens
/// under the `write_block` mutual-exclusion bit, acquired and released
/// within one call so the bit is free between operations. The independent
/// `state` word coordinates the controller with the worker.
pub struct LimitAccessQueue<T> {
    val: Vec<T>,
    write_block: bool,
    state: Coordination,
}

impl<T> LimitAccessQueue<T> {
    /// The storage buffer as a value; contracts of closure-taking operations
    /// speak of it directly.
    pub closed spec fn buffer(&self) -> Vec<T> {
        self.val
    }

    /// The items currently queued, oldest first.
    pub open spec fn contents(&self) -> Seq<T> {
        self.buffer()@
    }

    /// True between operations: nobody holds the mutual-exclusion bit.
    pub closed spec fn unblocked(&self) -> bool {
        !self.write_block
    }

    /// The state word.
    pub closed spec fn spec_state(&self) -> Coordination {
        self.state
    }

    pub fn new() -> (q: Self)
        ensures
            q.contents() =~= Seq::<T>::empty(),
            q.unblocked(),
            q.spec_state() is Waiting,
    {
        LimitAccessQueue { val: Vec::new(), write_block: false, state: Coordination::Waiting }
    }

    /// Claims the mutual-exclusion bit, reporting the bit's previous value:
    /// `Ok(false)` when the claim succeeded, `Err(true)` when another party
    /// holds it.
    pub fn atomic_write_block_to_true(&mut self) -> (r: Result<bool, bool>)
        ensures
            final(self).buffer() == old(self).buffer(),
            final(self).spec_state() == old(self).spec_state(),
            old(self).unblocked() ==> r == Result::<bool, bool>::Ok(false) && !final(self).unblocked(),
            !old(self).unblocked() ==> r == Result::<bool, bool>::Err(true) && !final(self).unblocked(),
    {
        if self.write_block {
            Err(true)
        } else {
            self.write_block = true;
            Ok(false)
        }
    }

    /// Unconditional release of the mutual-exclusion bit.
    fn release_write_block(&mut self)
        ensures
            final(self).buffer() == old(self).buffer(),
            final(self).spec_state() == old(self).spec_state(),
            final(self).unblocked(),
    {
        self.write_block = false;
    }

    /// Takes the newest item, if any.
    pub fn pop(&mut self) -> (r: Option<T>)
        requires
            old(self).unblocked(),
        ensures
            final(self).unblocked(),
            final(self).spec_state() == old(self).spec_state(),
            old(self).contents().len() == 0 ==> r is None && final(self).contents()
                == old(self).contents(),
            old(self).contents().len() > 0 ==> r == Some(old(self).contents().last())
                && final(self).contents() == old(self).contents().drop_last(),
    {
        let _claim = self.atomic_write_block_to_true();
        let r = self.val.pop();
        self.release_write_block();
        r
    }

    /// Empties the queue, handing every queued item out; none when there is
    /// nothing to steal.
    pub fn steal(&mut self) -> (r: Option<Vec<T>>)
        requires
            old(self).unblocked(),
        ensures
            final(self).unblocked(),
            final(self).spec_state() == old(self).spec_state(),
            old(self).contents().len() == 0 ==> r is None && final(self).contents()
                == old(self).contents(),
            old(self).contents().len() > 0 ==> (r matches Some(v) && v@ == old(self).contents()
                && final(self).contents().len() == 0),
    {
        let _claim = self.atomic_write_block_to_true();
        let r = if self.val.is_empty() {
            None
        } else {
            let mut tmp: Vec<T> = Vec::with_capacity(1);
            std::mem::swap(&mut tmp, &mut self.val);
            Some(tmp)
        };
        self.release_write_block();
        r
    }

    /// Splits the queue at half length and hands the upper half out; the
    /// lower half stays with the owner. The two parts together are exactly
    /// the pre-steal items.
    pub fn steal_half(&mut self) -> (r: Option<Vec<T>>)
        requires
            old(self).unblocked(),
        ensures
            final(self).unblocked(),
            final(self).spec_state() == old(self).spec_state(),
            old(self).contents().len() == 0 ==> r is None && final(self).contents()
                == old(self).contents(),
            old(self).contents().len() > 0 ==> (r matches Some(v) && {
                let half = old(self).contents().len() as int / 2;
                &&& v@ == old(self).contents().skip(half)
                &&& final(self).contents() == old(self).contents().take(half)
                &&& old(self).contents() =~= final(self).contents() + v@
                &&& v@.len() > 0
            }),
    {
        let _claim = self.atomic_write_block_to_true();
        let r = if self.val.is_empty() {
            None
        } else {
            let halflen = self.val.len() / 2;
            let res = self.val.split_off(halflen);
            Some(res)
        };
        self.release_write_block();
        proof {
            if old(self).contents().len() > 0 {
                assert(old(self).contents() =~= old(self).contents().take(
                    old(self).contents().len() as int / 2,
                ) + old(self).contents().skip(old(self).contents().len() as int / 2));
            }
        }
        r
    }

    pub fn is_empty(&mut self) -> (r: bool)
        requires
            old(self).unblocked(),
        ensures
            *final(self) == *old(self),
            final(self).unblocked(),
            r == (old(self).contents().len() == 0),
    {
        let _claim = self.atomic_write_block_to_true();
        let r = self.val.is_empty();
        self.release_write_block();
        r
    }

    pub fn len(&mut self) -> (r: usize)
        requires
            old(self).unblocked(),
        ensures
            *final(self) == *old(self),
            final(self).unblocked(),
            r == old(self).contents().len(),
    {
        let _claim = self.atomic_write_block_to_true();
        let r = if self.val.is_empty() {
            0usize
        } else {
            self.val.len()
        };
        self.release_write_block();
        r
    }

    /// Runs `f` on the buffer under the mutual-exclusion bit: the buffer is
    /// taken out, transformed, and the replacement stored before release.
    pub fn with_write_block<F, Output>(&mut self, f: F) -> (out: Output) where
        F: FnOnce(Vec<T>) -> (Vec<T>, Output),

        requires
            old(self).unblocked(),
            call_requires(f, (old(self).buffer(),)),
        ensures
            final(self).unblocked(),
            final(self).spec_state() == old(self).spec_state(),
            call_ensures(f, (old(self).buffer(),), (final(self).buffer(), out)),
    {
        let _claim = self.atomic_write_block_to_true();
        let mut tmp: Vec<T> = Vec::new();
        std::mem::swap(&mut tmp, &mut self.val);
        let (newbuf, out) = f(tmp);
        self.val = newbuf;
        self.release_write_block();
        out
    }

    /// Appends one item.
    pub fn push(&mut self, value: T)
        requires
            old(self).unblocked(),
        ensures
            final(self).unblocked(),
            final(self).spec_state() == old(self).spec_state(),
            final(self).contents() == old(self).contents().push(value),
    {
        let _claim = self.atomic_write_block_to_true();
        self.val.push(value);
        self.release_write_block();
    }

    /// Appends a whole batch, keeping the items already queued.
    pub fn write(&mut self, values: Vec<T>)
        requires
            old(self).unblocked(),
        ensures
            final(self).unblocked(),
            final(self).spec_state() == old(self).spec_state(),
            final(self).contents() == old(self).contents() + values@,
    {
        let mut values = values;
        let _claim = self.atomic_write_block_to_true();
        self.val.append(&mut values);
        self.release_write_block();
    }

    /// Swaps the buffer for `values`. The previous buffer is discarded, so
    /// the engine only replaces drained queues.
    pub fn replace(&mut self, values: Vec<T>)
        requires
            old(self).unblocked(),
            old(self).contents().len() == 0,
        ensures
            final(self).unblocked(),
            final(self).spec_state() == old(self).spec_state(),
            final(self).contents() == values@,
    {
        let mut values = values;
        let _claim = self.atomic_write_block_to_true();
        std::mem::swap(&mut values, &mut self.val);
        self.release_write_block();
    }

    pub fn is_write_blocked(&self) -> (r: bool)
        ensures
            r == !self.unblocked(),
    {
        self.write_block
    }

    /// Moves the state word. The protocol is enforced here: Done is reached
    /// only from Waiting with a drained queue.
    pub fn set_state(&mut self, state: Coordination)
        requires
            transition_allowed(old(self).spec_state(), state, old(self).contents().len() == 0),
        ensures
            final(self).contents() == old(self).contents(),
            final(self).unblocked() == old(self).unblocked(),
            final(self).spec_state() == state,
    {
        self.state = state;
    }

    pub fn get_state(&self) -> (r: Coordination)
        ensures
            r == self.spec_state(),
    {
        self.state
    }
}

/// Monotone progress: while a worker drains its queue and no steal
/// intervenes, every pop leaves the queue strictly shorter, so a running
/// worker's queue length strictly decreases.
pub proof fn lemma_pop_monotone_progress<T>(
    before: LimitAccessQueue<T>,
    after: LimitAccessQueue<T>,
)
    requires
        before.contents().len() > 0,
        after.contents() == before.contents().drop_last(),
    ensures
        after.contents().len() < before.contents().len(),
{
}

} // verus!
