use parallel_task::iterator::ParallelIter;
use parallel_task::parallel_task::ParallelTaskIter;

/// The pull model hands each position out once, in order, by reference.
#[test]
fn atomic_next_hands_each_position_once() {
    let v = vec![10, 20, 30];
    let mut it = v.parallel_iter();
    assert_eq!(it.atomic_next(), Some(&10));
    assert_eq!(it.atomic_next(), Some(&20));
    assert_eq!(it.atomic_next(), Some(&30));
    assert_eq!(it.atomic_next(), None);
}

/// The pull-model collect applies the function to every item in order.
#[test]
fn parallel_task_collect() {
    let v = (0..1_000).collect::<Vec<i32>>();
    let res = v.parallel_task(|x| *x * 2).collect::<Vec<i32>>();
    assert_eq!(res, (0..1_000).map(|x| x * 2).collect::<Vec<i32>>());
}
