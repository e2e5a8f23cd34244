use vstd::prelude::*;

verus! {

/// Fallback worker count used when nothing better is known. The verified
/// core cannot query the operating system for the machine's parallelism;
/// the runtime shell measures the real value and caps pools itself.
pub const DEFAULT_THREADS_NUM: usize = 4;

/// Ceiling factor: a pool may grow to twice the assumed parallelism.
pub const CPU_2_THREAD_RATIO: usize = 2;

/// Upper bound for a worker pool. The unverified runtime replaces this with
/// `available_parallelism * CPU_2_THREAD_RATIO` when detection succeeds;
/// here the documented fallback applies.
pub fn max_threads() -> (r: usize)
    ensures
        r == DEFAULT_THREADS_NUM * CPU_2_THREAD_RATIO,
        r >= 1,
{
    DEFAULT_THREADS_NUM * CPU_2_THREAD_RATIO
}

/// Bounded-backoff spinning used wherever an atomic guard is polled instead
/// of a blocking lock being taken. The counter regresses after a burst so a
/// long wait alternates tight polling with cooperative pauses; the verified
/// core tracks the counter, the runtime shell adds the CPU pause and yield.
pub struct SpinWait;

impl SpinWait {
    /// Polls `predicate` until it returns false, backing off between polls.
    /// Returns true when the predicate came back false; a poll budget bounds
    /// the wait, and exhausting it (after `usize::MAX` polls) returns false,
    /// the last poll having come back true.
    pub fn loop_while<F: Fn() -> bool>(predicate: F) -> (settled: bool)
        requires
            call_requires(predicate, ()),
        ensures
            settled ==> call_ensures(predicate, (), false),
            !settled ==> call_ensures(predicate, (), true),
    {
        let mut spins: usize = 0;
        let mut budget: usize = usize::MAX;
        let mut again = predicate();
        while again && budget > 0
            invariant
                call_requires(predicate, ()),
                call_ensures(predicate, (), again),
            decreases budget,
        {
            Self::spin_backoff(&mut spins);
            again = predicate();
            budget = budget - 1;
        }
        !again
    }

    /// Same protocol for a predicate that mutates its captured state, such
    /// as a compare-exchange retry.
    pub fn loop_while_mut<F: FnMut() -> bool>(mut predicate: F) -> (settled: bool)
        requires
            forall|p: F| call_requires(p, ()),
        ensures
            settled ==> exists|p: F| call_ensures(p, (), false),
            !settled ==> exists|p: F| call_ensures(p, (), true),
    {
        let mut spins: usize = 0;
        let mut budget: usize = usize::MAX;
        let mut again = predicate();
        while again && budget > 0
            invariant
                forall|p: F| call_requires(p, ()),
                exists|p: F| call_ensures(p, (), again),
            decreases budget,
        {
            Self::spin_backoff(&mut spins);
            again = predicate();
            budget = budget - 1;
        }
        !again
    }

    /// One backoff step: count a tight spin up to the burst limit, then
    /// regress the counter to model the cooperative pause.
    fn spin_backoff(spins: &mut usize)
        ensures
            *old(spins) < 128 ==> *final(spins) == *old(spins) + 1,
            *old(spins) >= 128 ==> *final(spins) == *old(spins) / 2,
    {
        if *spins < 128 {
            *spins = *spins + 1;
        } else {
            *spins = *spins / 2;
        }
    }
}

} // verus!
