use distributed_neural_network::health::{
    monitor_health, HealthCheck, HealthEvent, HealthMonitor, DEFAULT_UNHEALTHY_THRESHOLD,
};

fn sample(node_id: u128, is_healthy: bool) -> HealthCheck {
    HealthCheck { node_id, is_healthy }
}

#[test]
fn suspicion_fires_once_per_crossing() {
    let mut monitor = HealthMonitor::new(3);
    assert_eq!(monitor.observe(sample(1, false)), None);
    assert_eq!(monitor.observe(sample(1, false)), None);
    assert_eq!(monitor.observe(sample(1, false)), Some(HealthEvent::NodeSuspected(1)));
    // Still unhealthy: no event per sample after the crossing.
    assert_eq!(monitor.observe(sample(1, false)), None);
    assert_eq!(monitor.observe(sample(1, false)), None);
    assert_eq!(monitor.failure_count(1), 5);
    // A healthy sample resets the run; a new run can cross again.
    assert_eq!(monitor.observe(sample(1, true)), None);
    assert_eq!(monitor.failure_count(1), 0);
    assert_eq!(monitor.observe(sample(1, false)), None);
    assert_eq!(monitor.observe(sample(1, false)), None);
    assert_eq!(monitor.observe(sample(1, false)), Some(HealthEvent::NodeSuspected(1)));
}

#[test]
fn counters_are_kept_per_node() {
    let mut monitor = HealthMonitor::new(2);
    assert_eq!(monitor.observe(sample(1, false)), None);
    assert_eq!(monitor.observe(sample(2, false)), None);
    assert_eq!(monitor.observe(sample(2, true)), None);
    assert_eq!(monitor.observe(sample(1, false)), Some(HealthEvent::NodeSuspected(1)));
    assert_eq!(monitor.observe(sample(2, false)), None);
    assert_eq!(monitor.failure_count(1), 2);
    assert_eq!(monitor.failure_count(2), 1);
    assert_eq!(monitor.failure_count(3), 0);
    monitor.forget(1);
    assert_eq!(monitor.failure_count(1), 0);
}

#[test]
fn threshold_zero_stands_for_the_default() {
    let monitor = HealthMonitor::new(0);
    assert_eq!(monitor.unhealthy_threshold(), DEFAULT_UNHEALTHY_THRESHOLD);
    assert_eq!(DEFAULT_UNHEALTHY_THRESHOLD, 3);
    assert_eq!(HealthMonitor::new(7).unhealthy_threshold(), 7);
}

#[test]
fn threshold_one_fires_on_the_first_unhealthy_sample() {
    let mut monitor = HealthMonitor::new(1);
    assert_eq!(monitor.observe(sample(9, false)), Some(HealthEvent::NodeSuspected(9)));
    assert_eq!(monitor.observe(sample(9, false)), None);
}

#[test]
fn batch_reports_events_in_order() {
    let mut monitor = HealthMonitor::new(2);
    let samples = vec![
        sample(1, false),
        sample(2, false),
        sample(1, false),
        sample(1, false),
        sample(2, false),
        sample(1, true),
        sample(1, false),
        sample(1, false),
    ];
    let events = monitor_health(&mut monitor, &samples);
    assert_eq!(
        events,
        vec![
            HealthEvent::NodeSuspected(1),
            HealthEvent::NodeSuspected(2),
            HealthEvent::NodeSuspected(1),
        ]
    );
    assert_eq!(monitor.failure_count(1), 2);
    assert_eq!(monitor.failure_count(2), 2);
}

#[test]
fn silence_counts_as_threshold_unhealthy_samples() {
    let mut monitor = HealthMonitor::new(3);
    // interval 1000 ms, threshold 3: 2999 ms of silence is not yet too long.
    assert_eq!(monitor.observe_silence(5, 10_000, 12_999, 1_000), None);
    assert_eq!(monitor.failure_count(5), 0);
    // 3000 ms is.
    assert_eq!(monitor.observe_silence(5, 10_000, 13_000, 1_000), Some(HealthEvent::NodeSuspected(5)));
    assert_eq!(monitor.failure_count(5), 3);
    // Still silent: the count grows, the event is not repeated.
    assert_eq!(monitor.observe_silence(5, 10_000, 20_000, 1_000), None);
    assert_eq!(monitor.failure_count(5), 6);
}

#[test]
fn silence_completes_a_run_that_samples_began() {
    let mut monitor = HealthMonitor::new(3);
    assert_eq!(monitor.observe(sample(5, false)), None);
    assert_eq!(monitor.observe_silence(5, 0, 3_000, 1_000), Some(HealthEvent::NodeSuspected(5)));
    assert_eq!(monitor.failure_count(5), 4);
}

#[test]
fn failure_count_saturates() {
    let mut monitor = HealthMonitor::new(u32::MAX);
    assert_eq!(monitor.observe_silence(1, 0, i64::MAX, 0), Some(HealthEvent::NodeSuspected(1)));
    assert_eq!(monitor.failure_count(1), u32::MAX);
    assert_eq!(monitor.observe(sample(1, false)), None);
    assert_eq!(monitor.failure_count(1), u32::MAX);
    assert_eq!(monitor.observe_silence(1, 0, i64::MAX, 0), None);
    assert_eq!(monitor.failure_count(1), u32::MAX);
}
