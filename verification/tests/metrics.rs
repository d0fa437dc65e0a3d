use distributed_neural_network::logging_metrics::{
    bucket_bound, log_task_processing, TaskMetrics, BUCKETS,
};

#[test]
fn test_log_task_processing() {
    let mut metrics = TaskMetrics::new();
    // A task that took 100 milliseconds.
    log_task_processing(&mut metrics, 100 * 1_000);
    assert_eq!(metrics.tasks_processed(), 1);
    assert_eq!(metrics.total_micros(), 100_000);
}

#[test]
fn buckets_are_cumulative() {
    let mut metrics = TaskMetrics::new();
    assert_eq!(BUCKETS, 11);
    for i in 0..BUCKETS {
        assert_eq!(metrics.bucket_count(i), Some(0));
    }
    log_task_processing(&mut metrics, 5_000);
    log_task_processing(&mut metrics, 5_001);
    log_task_processing(&mut metrics, 100_000);
    log_task_processing(&mut metrics, 10_000_000);
    log_task_processing(&mut metrics, 10_000_001);
    let counts: Vec<u64> = (0..BUCKETS).map(|i| metrics.bucket_count(i).unwrap()).collect();
    assert_eq!(counts, vec![1, 2, 2, 2, 3, 3, 3, 3, 3, 3, 4]);
    assert_eq!(metrics.tasks_processed(), 5);
    assert_eq!(metrics.total_micros(), 5_000 + 5_001 + 100_000 + 10_000_000 + 10_000_001);
}

#[test]
fn bounds_run_from_five_milliseconds_to_ten_seconds() {
    let bounds: Vec<u64> = (0..BUCKETS).map(|i| bucket_bound(i).unwrap()).collect();
    assert_eq!(bucket_bound(BUCKETS), None);
    assert_eq!(
        bounds,
        vec![
            5_000, 10_000, 25_000, 50_000, 100_000, 250_000, 500_000, 1_000_000, 2_500_000,
            5_000_000, 10_000_000
        ]
    );
}

#[test]
fn totals_saturate() {
    let mut metrics = TaskMetrics::new();
    log_task_processing(&mut metrics, u64::MAX);
    log_task_processing(&mut metrics, 1);
    assert_eq!(metrics.total_micros(), u64::MAX);
    assert_eq!(metrics.tasks_processed(), 2);
    assert_eq!(metrics.bucket_count(0), Some(1));
    assert_eq!(metrics.bucket_count(BUCKETS), None);
}
