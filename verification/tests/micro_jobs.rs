use parallel_task::map::ParallelMapIter;
use parallel_task::prelude::{IntoParallelIter, ParallelIter};
use std::time::{Duration, Instant};

#[derive(Debug, Clone)]
struct Job {
    duration: Duration,
}

impl Job {
    fn run(&self) {
        // simulate real CPU work proportional to duration
        let start = Instant::now();
        while start.elapsed() < self.duration {
            std::hint::spin_loop();
        }
    }
}

fn create_micro_jobs(count: usize) -> Vec<Job> {
    // long-tailed pseudo-random durations: mostly ultra fast, a few heavier
    let mut seed: u64 = 0x9E3779B9;
    let mut next = move |range: u64| {
        seed ^= seed << 13;
        seed ^= seed >> 7;
        seed ^= seed << 17;
        seed % range
    };

    (0..count)
        .map(|_id| {
            let p = next(100);
            let nanos = if p < 90 {
                50 + next(450)
            } else if p < 99 {
                500 + next(2500)
            } else {
                3000 + next(7000)
            };
            Job { duration: Duration::from_nanos(nanos) }
        })
        .collect()
}

#[test]
fn micro_jobs() {
    println!("Into iters");
    let vec_jobs = create_micro_jobs(10_000);
    let vec_jobs2 = vec_jobs.clone();
    let tm = std::time::Instant::now();
    _ = vec_jobs.into_iter().map(|job| {
        job.run();
    }).collect::<Vec<_>>();
    println!("Normal : {}", tm.elapsed().as_micros());

    let tm = std::time::Instant::now();
    vec_jobs2.into_parallel_iter().map(|job| {
        job.run();
    }).collect::<Vec<_>>();
    println!("PT : {}", tm.elapsed().as_micros());

    println!("& iters");
    let vec_jobs = create_micro_jobs(10_000);
    let vec_jobs2 = vec_jobs.clone();
    let tm = std::time::Instant::now();
    _ = vec_jobs.into_iter().map(|job| {
        job.run();
    }).collect::<Vec<_>>();
    println!("Normal : {}", tm.elapsed().as_micros());

    let tm = std::time::Instant::now();
    vec_jobs2.parallel_iter().map(|job| {
        job.run();
    }).collect::<Vec<_>>();
    println!("PT : {}", tm.elapsed().as_micros());

    assert_eq!(1, 1);
}
