use vstd::prelude::*;
use crate::accessors::limit_queue::LimitAccessQueue;
use crate::push_workers::worker_thread::{transition_allowed, Coordination};

verus! {

/// Which capability a handle to the queue carries. The primary handle (the
/// controller's) may steal and replace; the secondary one (the worker's)
/// may only pop, query and move the state word.
#[derive(Clone, Copy, Debug, PartialEq, Eq, Structural)]
pub enum ReadAccessorType {
    Primary,
    Secondary,
}

/// A capability-checked handle over a limit-access queue. In the runtime
/// shell two of these share one queue allocation from different threads;
/// the verified core owns the queue and checks the capability split and the
/// effect of every operation.
pub struct ReadAccessor<T> {
    val: LimitAccessQueue<T>,
    rtype: ReadAccessorType,
}

impl<T> ReadAccessor<T> {
    /// The queue this handle watches over.
    pub closed spec fn queue(&self) -> LimitAccessQueue<T> {
        self.val
    }

    pub open spec fn contents(&self) -> Seq<T> {
        self.queue().contents()
    }

    pub open spec fn unblocked(&self) -> bool {
        self.queue().unblocked()
    }

    pub open spec fn spec_state(&self) -> Coordination {
        self.queue().spec_state()
    }

    pub closed spec fn accessor_type(&self) -> ReadAccessorType {
        self.rtype
    }

    pub fn new(owner: LimitAccessQueue<T>, rtype: ReadAccessorType) -> (r: Self)
        ensures
            r.queue() == owner,
            r.accessor_type() == rtype,
    {
        ReadAccessor { val: owner, rtype }
    }

    pub fn is_primary(&self) -> (r: bool)
        ensures
            r == (self.accessor_type() is Primary),
    {
        self.rtype == ReadAccessorType::Primary
    }

    /// Takes the newest item; both capabilities may pop.
    pub fn pop(&mut self) -> (r: Option<T>)
        requires
            old(self).unblocked(),
        ensures
            final(self).unblocked(),
            final(self).accessor_type() == old(self).accessor_type(),
            final(self).spec_state() == old(self).spec_state(),
            old(self).contents().len() == 0 ==> r is None && final(self).contents()
                == old(self).contents(),
            old(self).contents().len() > 0 ==> r == Some(old(self).contents().last())
                && final(self).contents() == old(self).contents().drop_last(),
    {
        self.val.pop()
    }

    pub fn is_empty(&mut self) -> (r: bool)
        requires
            old(self).unblocked(),
        ensures
            *final(self) == *old(self),
            r == (old(self).contents().len() == 0),
    {
        self.val.is_empty()
    }

    pub fn len(&mut self) -> (r: usize)
        requires
            old(self).unblocked(),
        ensures
            *final(self) == *old(self),
            r == old(self).contents().len(),
    {
        self.val.len()
    }

    /// Appends a batch behind the items already queued; primary capability
    /// only — the worker's handle may not feed its own queue.
    pub fn write(&mut self, values: Vec<T>) -> (r: Result<bool, bool>)
        requires
            old(self).unblocked(),
            old(self).accessor_type() is Primary,
        ensures
            final(self).unblocked(),
            final(self).accessor_type() == old(self).accessor_type(),
            final(self).spec_state() == old(self).spec_state(),
            final(self).contents() == old(self).contents() + values@,
            r == Result::<bool, bool>::Ok(true),
    {
        self.val.write(values);
        Ok(true)
    }

    /// Swaps a drained buffer for `values`; primary capability only.
    pub fn replace(&mut self, values: Vec<T>) -> (r: Result<bool, bool>)
        requires
            old(self).unblocked(),
            old(self).contents().len() == 0,
            old(self).accessor_type() is Primary,
        ensures
            final(self).unblocked(),
            final(self).accessor_type() == old(self).accessor_type(),
            final(self).spec_state() == old(self).spec_state(),
            final(self).contents() == values@,
            r == Result::<bool, bool>::Ok(true),
    {
        self.val.replace(values);
        Ok(true)
    }

    pub fn is_write_blocked(&self) -> (r: bool)
        ensures
            r == !self.unblocked(),
    {
        self.val.is_write_blocked()
    }

    /// Empties the queue. Only the primary capability may steal; through a
    /// secondary handle the call does nothing and reports none.
    pub fn steal(&mut self) -> (r: Option<Vec<T>>)
        requires
            old(self).unblocked(),
        ensures
            final(self).unblocked(),
            final(self).accessor_type() == old(self).accessor_type(),
            final(self).spec_state() == old(self).spec_state(),
            old(self).accessor_type() is Secondary ==> r is None && final(self).contents()
                == old(self).contents(),
            old(self).accessor_type() is Primary ==> {
                &&& old(self).contents().len() == 0 ==> r is None && final(self).contents()
                    == old(self).contents()
                &&& old(self).contents().len() > 0 ==> (r matches Some(v) && v@ == old(
                    self,
                ).contents() && final(self).contents().len() == 0)
            },
    {
        match self.rtype {
            ReadAccessorType::Secondary => None,
            ReadAccessorType::Primary => self.val.steal(),
        }
    }

    /// Splits the queue and takes the upper half; primary capability only.
    /// The remainder and the stolen chunk together are exactly the
    /// pre-steal items.
    pub fn steal_half(&mut self) -> (r: Option<Vec<T>>)
        requires
            old(self).unblocked(),
        ensures
            final(self).unblocked(),
            final(self).accessor_type() == old(self).accessor_type(),
            final(self).spec_state() == old(self).spec_state(),
            old(self).accessor_type() is Secondary ==> r is None && final(self).contents()
                == old(self).contents(),
            old(self).accessor_type() is Primary ==> {
                &&& old(self).contents().len() == 0 ==> r is None && final(self).contents()
                    == old(self).contents()
                &&& old(self).contents().len() > 0 ==> (r matches Some(v) && {
                    let half = old(self).contents().len() as int / 2;
                    &&& v@ == old(self).contents().skip(half)
                    &&& final(self).contents() == old(self).contents().take(half)
                    &&& old(self).contents() =~= final(self).contents() + v@
                    &&& v@.len() > 0
                })
            },
    {
        match self.rtype {
            ReadAccessorType::Secondary => None,
            ReadAccessorType::Primary => self.val.steal_half(),
        }
    }

    /// Moves the state word, under the transition protocol the queue
    /// enforces.
    pub fn set_state(&mut self, state: Coordination)
        requires
            transition_allowed(old(self).spec_state(), state, old(self).contents().len() == 0),
        ensures
            final(self).unblocked() == old(self).unblocked(),
            final(self).accessor_type() == old(self).accessor_type(),
            final(self).contents() == old(self).contents(),
            final(self).spec_state() == state,
    {
        self.val.set_state(state);
    }

    pub fn state(&mut self) -> (r: Coordination)
        ensures
            *final(self) == *old(self),
            r == old(self).spec_state(),
    {
        self.val.get_state()
    }
}

} // verus!
