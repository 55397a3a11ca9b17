use surf::bench::{percentile, summarize, BenchmarkRun, BenchmarkSample, RunAction};
use surf::limiter::{Arrival, Limiter};

#[test]
fn percentile_indexing() {
    let data: Vec<u64> = vec![10, 20, 30, 40, 50];
    assert_eq!(percentile(&data, 50), 30);
    assert_eq!(percentile(&data, 95), 50);
    assert_eq!(percentile(&data, 99), 50);
}

#[test]
fn percentile_edges() {
    assert_eq!(percentile(&vec![], 50), 0);
    assert_eq!(percentile(&vec![7], 0), 7);
    assert_eq!(percentile(&vec![7], 100), 7);
    let data: Vec<u64> = vec![1, 2, 3, 4];
    assert_eq!(percentile(&data, 0), 1);
    assert_eq!(percentile(&data, 25), 2);
    assert_eq!(percentile(&data, 50), 3);
    assert_eq!(percentile(&data, 74), 3);
    assert_eq!(percentile(&data, 75), 4);
    assert_eq!(percentile(&data, 100), 4);
    assert_eq!(percentile(&data, u64::MAX), 4);
}

#[test]
fn percentile_of_a_hundred_values() {
    let data: Vec<u64> = (1..=100).collect();
    assert_eq!(percentile(&data, 50), 51);
    assert_eq!(percentile(&data, 95), 96);
    assert_eq!(percentile(&data, 99), 100);
}

#[test]
fn a_sample_succeeds_from_200_up_to_399() {
    assert!(BenchmarkSample::new(1, Some(200)).is_successful());
    assert!(BenchmarkSample::new(1, Some(302)).is_successful());
    assert!(BenchmarkSample::new(1, Some(399)).is_successful());
    assert!(!BenchmarkSample::new(1, Some(199)).is_successful());
    assert!(!BenchmarkSample::new(1, Some(400)).is_successful());
    assert!(!BenchmarkSample::new(1, Some(500)).is_successful());
    assert!(!BenchmarkSample::new(1, None).is_successful());
}

#[test]
fn hundred_requests_all_ok() {
    let samples: Vec<BenchmarkSample> =
        (0..100).map(|i| BenchmarkSample::new(5 + (i % 7), Some(200))).collect();
    let stats = summarize(&samples);
    assert_eq!(stats.total_requests, 100);
    assert_eq!(stats.successful, 100);
    assert_eq!(stats.failed, 0);
    assert_eq!(stats.status_codes.len(), 1);
    assert_eq!(stats.status_codes.get(&200), Some(&100));
}

#[test]
fn statistics_of_unsorted_samples() {
    let samples = vec![
        BenchmarkSample::new(50, Some(200)),
        BenchmarkSample::new(10, Some(404)),
        BenchmarkSample::new(40, None),
        BenchmarkSample::new(20, Some(200)),
        BenchmarkSample::new(30, Some(301)),
    ];
    let stats = summarize(&samples);
    assert_eq!(stats.total_requests, 5);
    assert_eq!(stats.successful, 3);
    assert_eq!(stats.failed, 2);
    assert_eq!(stats.min_ms, 10);
    assert_eq!(stats.max_ms, 50);
    assert_eq!(stats.avg_ms, 30);
    assert_eq!(stats.p50_ms, 30);
    assert_eq!(stats.p95_ms, 50);
    assert_eq!(stats.p99_ms, 50);
    assert_eq!(stats.status_codes.len(), 3);
    assert_eq!(stats.status_codes.get(&200), Some(&2));
    assert_eq!(stats.status_codes.get(&404), Some(&1));
    assert_eq!(stats.status_codes.get(&301), Some(&1));
}

#[test]
fn statistics_of_no_samples() {
    let stats = summarize(&vec![]);
    assert_eq!(stats.total_requests, 0);
    assert_eq!(stats.successful, 0);
    assert_eq!(stats.failed, 0);
    assert_eq!(stats.min_ms, 0);
    assert_eq!(stats.max_ms, 0);
    assert_eq!(stats.avg_ms, 0);
    assert_eq!(stats.p50_ms, 0);
    assert!(stats.status_codes.is_empty());
}

#[test]
fn mean_is_rounded_down_and_does_not_overflow() {
    let stats = summarize(&vec![BenchmarkSample::new(1, None), BenchmarkSample::new(2, None)]);
    assert_eq!(stats.avg_ms, 1);
    let big = summarize(&vec![
        BenchmarkSample::new(u64::MAX, None),
        BenchmarkSample::new(u64::MAX, None),
        BenchmarkSample::new(u64::MAX - 3, None),
    ]);
    assert_eq!(big.avg_ms, u64::MAX - 1);
    assert_eq!(big.min_ms, u64::MAX - 3);
    assert_eq!(big.max_ms, u64::MAX);
}

#[test]
fn limiter_never_grants_more_than_its_capacity() {
    for capacity in 1..=5usize {
        let mut limiter = Limiter::new(capacity);
        let mut granted = 0usize;
        for _ in 0..20 {
            if limiter.try_acquire() {
                granted += 1;
            }
            assert!(limiter.outstanding() <= capacity);
        }
        assert_eq!(granted, capacity);
        assert_eq!(limiter.outstanding(), capacity);
        assert_eq!(limiter.available(), 0);
        limiter.release();
        assert_eq!(limiter.outstanding(), capacity - 1);
        assert!(limiter.try_acquire());
        assert!(!limiter.try_acquire());
    }
}

#[test]
fn limiter_under_a_mixed_arrival_pattern() {
    let pattern = [
        Arrival::Acquire,
        Arrival::Acquire,
        Arrival::Release,
        Arrival::Acquire,
        Arrival::Acquire,
        Arrival::Acquire,
        Arrival::Release,
        Arrival::Release,
        Arrival::Release,
        Arrival::Release,
        Arrival::Acquire,
    ];
    let expected = [1usize, 2, 1, 2, 3, 3, 2, 1, 0, 0, 1];
    let mut limiter = Limiter::new(3);
    for (arrival, held) in pattern.iter().zip(expected.iter()) {
        limiter.arrive(*arrival);
        assert_eq!(limiter.outstanding(), *held);
        assert!(limiter.outstanding() <= limiter.capacity());
    }
}

#[test]
fn limiter_of_no_capacity_grants_nothing() {
    let mut limiter = Limiter::new(0);
    assert!(!limiter.try_acquire());
    limiter.release();
    assert_eq!(limiter.outstanding(), 0);
    assert_eq!(limiter.capacity(), 0);
}

#[test]
fn run_keeps_at_most_the_concurrency_in_flight() {
    let mut run = BenchmarkRun::new(100, 10);
    let mut launched: Vec<usize> = Vec::new();
    let mut most_in_flight = 0usize;
    loop {
        match run.next_action() {
            RunAction::Launch(index) => {
                launched.push(index);
                most_in_flight = most_in_flight.max(run.requests_in_flight());
                assert!(run.requests_in_flight() <= 10);
            }
            RunAction::Wait => {
                assert!(run.stats().is_none());
                assert!(run.record_request(12, Some(200)));
            }
            RunAction::Finished => break,
        }
    }
    assert_eq!(launched, (0..100).collect::<Vec<usize>>());
    assert_eq!(most_in_flight, 10);
    assert!(run.is_finished());
    let stats = run.stats().unwrap();
    assert_eq!(stats.total_requests, 100);
    assert_eq!(stats.successful, 100);
    assert_eq!(stats.failed, 0);
    assert_eq!(stats.avg_ms, 12);
}

#[test]
fn a_failed_request_is_a_sample_and_does_not_end_the_run() {
    let mut run = BenchmarkRun::new(3, 2);
    assert_eq!(run.next_action(), RunAction::Launch(0));
    assert_eq!(run.next_action(), RunAction::Launch(1));
    assert_eq!(run.next_action(), RunAction::Wait);
    assert!(run.record_request(7, None));
    assert_eq!(run.next_action(), RunAction::Launch(2));
    assert!(run.record_request(9, Some(500)));
    assert!(run.record_request(8, Some(204)));
    assert!(!run.record_request(1, Some(200)));
    assert_eq!(run.next_action(), RunAction::Finished);
    let stats = run.stats().unwrap();
    assert_eq!((stats.successful, stats.failed), (1, 2));
    assert_eq!(stats.min_ms, 7);
    assert_eq!(stats.max_ms, 9);
}

#[test]
fn an_empty_run_is_finished_at_once() {
    let mut run = BenchmarkRun::new(0, 4);
    assert_eq!(run.next_action(), RunAction::Finished);
    assert_eq!(run.stats().unwrap().total_requests, 0);
}
