use parallel_task::accessors::limit_queue::LimitAccessQueue;
use parallel_task::accessors::read_accessor::{ReadAccessor, ReadAccessorType};
use parallel_task::errors::WorkThreadError;
use parallel_task::iterators::fetch::Fetch;
use parallel_task::iterators::fetchdirect::{FetchDirect, FetchInDirect};
use parallel_task::iterators::iterator::DiscreteQueue;
use parallel_task::iterators::queued::SizedQueue;
use parallel_task::push_workers::priorisation::ThreadPrioritization;
use parallel_task::push_workers::thread_manager::ThreadManager;
use parallel_task::push_workers::thread_runner::ThreadRunner;
use parallel_task::push_workers::worker_thread::Coordination;
use parallel_task::utils::SpinWait;
use std::cell::Cell;

/// Across a half steal, the remainder and the stolen chunk together are
/// exactly the pre-steal items.
#[test]
fn steal_half_partitions_queue() {
    let mut q = LimitAccessQueue::<i32>::new();
    q.write((0..10).collect::<Vec<_>>());
    let stolen = q.steal_half().unwrap();
    assert_eq!(stolen, (5..10).collect::<Vec<_>>());
    let rest = q.steal().unwrap();
    assert_eq!(rest, (0..5).collect::<Vec<_>>());
    assert!(q.is_empty());
}

/// Stealing from an empty queue reports none; a split never hands out an
/// empty chunk.
#[test]
fn steal_on_empty_is_none() {
    let mut q = LimitAccessQueue::<i32>::new();
    assert!(q.steal().is_none());
    assert!(q.steal_half().is_none());
    q.push(7);
    let stolen = q.steal_half().unwrap();
    assert_eq!(stolen, vec![7]);
}

/// Queue length strictly decreases under pop while nobody steals.
#[test]
fn pop_decreases_length() {
    let mut q = LimitAccessQueue::<i32>::new();
    q.write(vec![1, 2, 3]);
    assert_eq!(q.len(), 3);
    assert_eq!(q.pop(), Some(3));
    assert_eq!(q.len(), 2);
    assert_eq!(q.pop(), Some(2));
    assert_eq!(q.len(), 1);
    assert_eq!(q.pop(), Some(1));
    assert_eq!(q.pop(), None);
    assert!(q.is_empty());
}

/// The exclusion bit is free between operations and observable.
#[test]
fn write_block_released_between_operations() {
    let mut q = LimitAccessQueue::<i32>::new();
    assert!(!q.is_write_blocked());
    q.push(1);
    assert!(!q.is_write_blocked());
    assert_eq!(q.atomic_write_block_to_true(), Ok(false));
    assert!(q.is_write_blocked());
    assert_eq!(q.atomic_write_block_to_true(), Err(true));
}

/// The state word starts Waiting and moves under the protocol.
#[test]
fn state_word_protocol() {
    let mut q = LimitAccessQueue::<i32>::new();
    assert_eq!(q.get_state(), Coordination::Waiting);
    q.set_state(Coordination::Run);
    assert_eq!(q.get_state(), Coordination::Run);
    q.set_state(Coordination::Waiting);
    q.set_state(Coordination::Done);
    assert_eq!(q.get_state(), Coordination::Done);
}

/// Only the primary capability may steal; the secondary's steal is a
/// no-op that reports none.
#[test]
fn secondary_cannot_steal() {
    let mut q = LimitAccessQueue::<i32>::new();
    q.write(vec![1, 2, 3]);
    let mut secondary = ReadAccessor::new(q, ReadAccessorType::Secondary);
    assert!(!secondary.is_primary());
    assert!(secondary.steal().is_none());
    assert!(secondary.steal_half().is_none());
    assert_eq!(secondary.len(), 3);
    assert_eq!(secondary.pop(), Some(3));
}

/// The primary capability steals and replaces.
#[test]
fn primary_steals_and_replaces() {
    let q = LimitAccessQueue::<i32>::new();
    let mut primary = ReadAccessor::new(q, ReadAccessorType::Primary);
    assert!(primary.is_primary());
    assert_eq!(primary.replace(vec![4, 5, 6]), Ok(true));
    assert_eq!(primary.len(), 3);
    let stolen = primary.steal_half().unwrap();
    assert_eq!(stolen, vec![5, 6]);
    assert_eq!(primary.steal().unwrap(), vec![4]);
}

/// The by-value dispenser chunks at `max(len / 100, 8)` and never hands
/// out an empty chunk.
#[test]
fn fetch_direct_chunk_bounds() {
    let mut d = FetchDirect::new((0..10_000).collect::<Vec<i32>>());
    assert_eq!(d.len(), Some(10_000));
    let chunk = d.pull().unwrap();
    assert_eq!(chunk.len(), 100);
    // the reported count is the original total, untouched by hand-outs
    assert_eq!(d.len(), Some(10_000));
    d.pop();
    assert_eq!(d.len(), Some(10_000));

    let mut small = FetchDirect::new((0..3).collect::<Vec<i32>>());
    let chunk = small.pull().unwrap();
    assert_eq!(chunk.len(), 3);
    assert!(small.pull().is_none());

    let mut empty = FetchDirect::new(Vec::<i32>::new());
    assert!(empty.pull().is_none());
    assert!(empty.pop().is_none());
}

/// The by-reference dispenser hands out references in source order.
#[test]
fn fetch_indirect_in_order() {
    let source = (0..20).collect::<Vec<i32>>();
    let mut d = FetchInDirect::new(&source);
    assert_eq!(d.len(), 20);
    assert_eq!(d.pop(), Some(&0));
    let chunk = d.pull().unwrap();
    assert_eq!(chunk, (1..9).collect::<Vec<_>>().iter().collect::<Vec<&i32>>());
}

/// The counted dispenser hands the enumeration out front first, whole.
#[test]
fn sized_queue_dispenses_everything() {
    let mut q = SizedQueue::new((0..25).collect::<Vec<i32>>(), 25);
    assert_eq!(q.len(), Some(25));
    assert_eq!(q.pop(), Some(0));
    let mut seen = vec![0];
    while let Some(chunk) = q.pull() {
        assert!(!chunk.is_empty());
        assert!(chunk.len() <= 8);
        seen.extend(chunk);
    }
    assert_eq!(seen, (0..25).collect::<Vec<_>>());
}

/// Ranking orders workers by remaining work, heaviest first, and keeps
/// every entry.
#[test]
fn prioritize_sorts_descending() {
    let snapshot = vec![(0usize, 3usize), (1, 9), (2, 0), (3, 7)];
    let ranked = ThreadPrioritization::Remaining.prioritize(snapshot);
    assert_eq!(ranked, vec![(1, 9), (3, 7), (0, 3), (2, 0)]);
}

/// The spin helper polls until the predicate settles.
#[test]
fn spin_wait_polls_until_false() {
    let val = &Cell::new(0usize);
    let predicate = || {
        let y = val.get();
        val.set(y + 1);
        val.get() < 10
    };
    assert!(SpinWait::loop_while(predicate));
    assert_eq!(val.get(), 10);

    let mut count = 0;
    assert!(SpinWait::loop_while_mut(|| {
        count += 1;
        count < 10
    }));
    assert_eq!(count, 10);
}

/// Each error category describes itself.
#[test]
fn error_messages() {
    assert_eq!(WorkThreadError::ThreadJoin.message(), "join error");
    assert_eq!(WorkThreadError::ThreadAdd("x".to_string()).message(), "thread add error");
    assert_eq!(WorkThreadError::Other("y".to_string()).message(), "other error");
}

/// A worker's full life: launch Waiting, take a batch, drain it in pop
/// order, rest, finish only when drained, surrender outputs at join.
#[test]
fn worker_lifecycle() {
    let mut w = parallel_task::push_workers::worker_thread::WorkerThread::<i32, i32>::launch(0)
        .unwrap();
    assert_eq!(w.pos(), 0);
    assert!(w.is_waiting());
    assert!(w.is_queue_empty());

    // an empty batch is refused as "no work"
    let refused = w.run(Vec::new());
    assert!(matches!(refused, Err(parallel_task::errors::WorkThreadError::Other(_))));

    w.run(vec![1, 2, 3]).unwrap();
    assert!(w.is_running());
    assert_eq!(w.queue_len(), 3);
    assert_eq!(w.queue_start_len(), 3);

    let double = |v: i32| v * 2;
    w.process(&double);
    assert!(w.is_waiting());
    assert!(w.is_queue_empty());

    w.done();
    let outputs = w.join().unwrap();
    // drained in pop order: the newest item first
    assert_eq!(outputs, vec![6, 4, 2]);
}

/// Keyed fetching removes the addressed item, so no key is served twice.
#[test]
fn fetch_removes_item() {
    let mut v = vec![10, 20, 30];
    assert_eq!(v.atomic_fetch(&1), Some(20));
    assert_eq!(v, vec![10, 30]);
    assert_eq!(v.atomic_fetch(&5), None);
    assert_eq!(Vec::<i32>::get_key(&[], &7), Some(&7));
    assert!(v.keys_vec().is_empty());
}

/// The worker-side loop drains a Run batch in pop order and acknowledges
/// with Waiting.
#[test]
fn thread_runner_drains_batch() {
    let mut q = LimitAccessQueue::<i32>::new();
    q.write(vec![1, 2, 3]);
    q.set_state(Coordination::Run);
    let acc = ReadAccessor::new(q, ReadAccessorType::Secondary);
    let mut runner = ThreadRunner::new(0, acc, |v: i32| v + 1);
    assert_eq!(runner.pos(), 0);
    let out = runner.run();
    assert_eq!(out, vec![4, 3, 2]);
}

/// The idle list is a queue: oldest entry out first.
#[test]
fn free_list_is_fifo() {
    let mut tm = ThreadManager::<i32, i32>::new(4);
    assert_eq!(tm.thread_len(), 0);
    tm.add_thread().unwrap();
    tm.add_thread().unwrap();
    assert_eq!(tm.thread_len(), 2);
    assert!(!tm.has_free_threads());
    tm.add_to_free_queue(0);
    tm.add_to_free_queue(1);
    assert!(tm.has_free_threads());
    assert_eq!(tm.get_free_treads().len(), 2);
    assert_eq!(tm.pop_from_free_queue(), Some(0));
    assert_eq!(tm.pop_from_free_queue(), Some(1));
    assert_eq!(tm.pop_from_free_queue(), None);
    tm.add_to_free_queue(1);
    tm.clear_free_threads();
    assert!(!tm.has_free_threads());
}
