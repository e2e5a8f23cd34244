use parallel_task::accessors::limit_queue::LimitAccessQueue;

/// The pop and steal paths of the limit-access queue, interleaved as the
/// two accessors would interleave them, must account for every item.
#[test]
fn queue_contention() {
    let values = (0..100_000).collect::<Vec<_>>();

    let mut queue = LimitAccessQueue::<i32>::new();
    queue.write(values);

    let mut results1 = Vec::new();
    let mut results2 = Vec::new();
    for _ in 0..40_000 {
        // the controller's side takes one...
        if let Some(value) = queue.pop() {
            results1.push(value);
        } else {
            break;
        }
        // ...and the worker's side takes one
        if let Some(value) = queue.pop() {
            results2.push(value);
        } else {
            break;
        }
    }
    // the controller finally steals whatever remains
    if let Some(values) = queue.steal() {
        results1.extend(values.into_iter());
    }

    // both sides obtained values
    assert!(!results1.is_empty());
    assert!(!results2.is_empty());

    // and together they drained the queue exactly
    assert_eq!(results1.len() + results2.len(), 100_000);

    let mut all = results1;
    all.extend(results2.into_iter());
    all.sort();
    assert_eq!(all, (0..100_000).collect::<Vec<_>>());
}
