use std::sync::atomic::{AtomicUsize, Ordering};
use parallel_task::for_each_mut::ParallelForEachMutIter;
use parallel_task::map::ParallelMapIter;
use parallel_task::prelude::{IntoParallelIter, ParallelForEachIter, ParallelIter};

/// A mapped range comes back complete: sorted, it is exactly the shifted
/// range.
#[test]
fn range_map_shift() {
    let mut res = (0..100_000).into_parallel_iter().map(|x| x + 100).collect::<Vec<i32>>();
    assert_eq!(res.len(), 100_000);
    res.sort();
    assert_eq!(res, (100..100_100).collect::<Vec<i32>>());
}

/// A table of nullary jobs, consumed by value: every entry's job runs
/// exactly once.
#[test]
fn hash_table_by_value_map() {
    let job = || (0..1_000).sum::<i32>();
    let table = (0..10_000).map(|i| (i, job)).collect::<std::collections::HashMap<_, _>>();
    let res = table.into_parallel_iter().map(|(_, j)| j()).collect::<Vec<i32>>();
    assert_eq!(res.len(), 10_000);
    assert!(res.iter().all(|&v| v == 499_500));
    assert_eq!(499_500, job());
}

/// A mutably capturing for-each serialises and still visits every item.
#[test]
fn contiguous_for_each_mut_aggregate() {
    let mut test = 0;
    let target = 100;
    (0..=target).collect::<Vec<i32>>().parallel_iter().for_each_mut(|v| {
        test += *v;
    });
    assert_eq!(test, target * (target + 1) / 2);
}

/// An empty source completes both operations without work: the map result
/// is empty and the function is never invoked.
#[test]
fn empty_source() {
    let res = (0..0).into_parallel_iter().map(|x: i32| x).collect::<Vec<i32>>();
    assert_eq!(res.len(), 0);

    let calls = AtomicUsize::new(0);
    (0..0).into_parallel_iter().for_each(|_v: i32| {
        calls.fetch_add(1, Ordering::SeqCst);
    });
    assert_eq!(calls.load(Ordering::SeqCst), 0);
}

/// A single-element source produces a single output.
#[test]
fn single_element_source() {
    let res = vec![42].into_parallel_iter().map(|x: i32| x * 2).collect::<Vec<i32>>();
    assert_eq!(res, vec![84]);
}

/// A worker cap of one behaves as a sequential run.
#[test]
fn worker_cap_of_one() {
    let m = (0..1_000).collect::<Vec<i32>>().into_parallel_iter().map(|x| x * 3).threads(1);
    assert_eq!(m.num_threads, 1);
    let mut res = m.collect::<Vec<i32>>();
    res.sort();
    assert_eq!(res, (0..1_000).map(|x| x * 3).collect::<Vec<i32>>());
}

/// The second `.threads` call wins.
#[test]
fn threads_last_value_wins() {
    let m = (0..10).collect::<Vec<i32>>().into_parallel_iter().map(|x| x).threads(3).threads(1);
    assert_eq!(m.num_threads, 1);
    let m2 = (0..10).collect::<Vec<i32>>().into_parallel_iter().map(|x| x).threads(1).threads(3);
    assert_eq!(m2.num_threads, 3);
    // the requested cap is itself capped by the library's ceiling
    let m3 = (0..10).collect::<Vec<i32>>().into_parallel_iter().map(|x| x).threads(1000);
    assert_eq!(m3.num_threads, parallel_task::utils::max_threads());
}

/// For-each invokes the function exactly once per item: the invocation
/// count is the source's cardinality and the sum sees every item.
#[test]
fn for_each_invocation_count() {
    let calls = AtomicUsize::new(0);
    let sum = AtomicUsize::new(0);
    (0..1_000usize).into_parallel_iter().for_each(|v| {
        calls.fetch_add(1, Ordering::SeqCst);
        sum.fetch_add(v, Ordering::SeqCst);
    });
    assert_eq!(calls.load(Ordering::SeqCst), 1_000);
    assert_eq!(sum.load(Ordering::SeqCst), 999 * 1_000 / 2);
}

/// Many uneven short jobs, consumed by value: one output per job.
#[test]
fn elastic_many_short_jobs() {
    // long-tailed pseudo-random spin durations
    let mut seed: u64 = 0x2545F491;
    let mut next = move || {
        seed ^= seed << 13;
        seed ^= seed >> 7;
        seed ^= seed << 17;
        seed
    };
    let jobs = (0..10_000)
        .map(|_| {
            let spin = 1 + (next() % 400);
            move || {
                let mut acc: u64 = 0;
                for i in 0..spin {
                    acc = acc.wrapping_add(i);
                }
                acc
            }
        })
        .collect::<Vec<_>>();
    let res = jobs.into_parallel_iter().map(|j| j()).collect::<Vec<u64>>();
    assert_eq!(res.len(), 10_000);
}
