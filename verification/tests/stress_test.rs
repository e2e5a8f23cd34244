use parallel_task::map::ParallelMapIter;
use parallel_task::prelude::ParallelIter;

// Run multiple consecutive heavy jobs to check how well the library holds
// up; sizes are pseudo-random with a long spread.

fn lcg(seed: &mut u64) -> u64 {
    *seed = seed.wrapping_mul(6364136223846793005).wrapping_add(1442695040888963407);
    *seed >> 33
}

#[test]
fn consecutive_heavy_process() {
    println!("Starting Parallel Task");

    let t1 = std::time::Instant::now();
    let mut seed = 42u64;
    let jobs = (0..5_000)
        .map(|_| {
            let n = 20_000 + lcg(&mut seed) % 20_000;
            move || (0..n as i64).sum::<i64>()
        })
        .collect::<Vec<_>>();

    println!("Before job1");
    let _ = jobs.parallel_iter().map(|j| j()).collect::<Vec<i64>>();
    println!("Post job1");

    let mut seed = 43u64;
    let jobs = (0..5_000)
        .map(|_| {
            let n = 20_000 + lcg(&mut seed) % 20_000;
            move || (0..n as u128).fold(1, |acc, val| acc + val)
        })
        .collect::<Vec<_>>();

    println!("Before job2");
    let _ = jobs.parallel_iter().map(|j| j()).collect::<Vec<u128>>();
    println!("Post job2");

    println!(
        "Parallel Task implementation - total time - {} milliseconds.",
        t1.elapsed().as_millis()
    );

    assert_eq!(1, 1)
}
