use scaling_adapter::history::{
    AveragedMetricsHistory, MetricsHistory, AVERAGED_HISTORY_CAPACITY, METRICS_HISTORY_CAPACITY,
};
use scaling_adapter::intervals::{AveragedIntervalMetrics, IntervalDerivedData, IntervalMetrics};

fn metrics(i: usize, start: u64) -> IntervalMetrics {
    IntervalMetrics {
        derived_data: IntervalDerivedData { scale_metric: i as u32, reset_metric: i as u32 },
        amount_targets: i,
        interval_start: start,
        interval_end: start,
    }
}

fn averaged(i: usize) -> AveragedIntervalMetrics {
    AveragedIntervalMetrics {
        derived_data_avg: IntervalDerivedData { scale_metric: i as u32, reset_metric: 0 },
        derived_data_stddev: IntervalDerivedData { scale_metric: 0, reset_metric: 0 },
        interval_start: 0,
        interval_end: 1,
        amount_intervals: i,
    }
}

fn construct_dummy_history_big() -> MetricsHistory {
    let mut result = MetricsHistory::new();
    for i in 1..25 {
        result.add(metrics(i, 1_000));
    }
    result
}

#[test]
fn metrics_history() {
    let history = construct_dummy_history_big();
    let mut latest = 24;
    for metrics in history.last(None) {
        assert_eq!(metrics.amount_targets, latest);
        latest -= 1;
    }
    let latest_metrics = history.get(0);
    let previous_metrics = history.get(0);
    assert!(latest_metrics.is_some());
    assert!(previous_metrics.is_some());
}

#[test]
fn ring_buffer_ordering() {
    let history = construct_dummy_history_big();
    let listed: Vec<usize> = history.last(None).iter().map(|m| m.amount_targets).collect();
    let expected: Vec<usize> = (1..25).rev().collect();
    assert_eq!(listed, expected);
    assert_eq!(history.size(), 24);
}

#[test]
fn empty_history_has_no_entries() {
    let history = MetricsHistory::new();
    assert_eq!(history.size(), 0);
    assert!(history.get(0).is_none());
    assert!(history.last(None).is_empty());
    assert!(history.last(Some(0)).is_empty());
}

#[test]
fn newest_entry_is_the_last_added() {
    let mut history = MetricsHistory::new();
    for k in 1..=METRICS_HISTORY_CAPACITY {
        history.add(metrics(k, 0));
        assert_eq!(history.get(0).unwrap().amount_targets, k);
        assert_eq!(history.size(), k);
    }
}

#[test]
fn full_history_drops_the_oldest() {
    for n in [1usize, 2, 37, 100, 250] {
        let mut history = MetricsHistory::new();
        for k in 1..=(METRICS_HISTORY_CAPACITY + n) {
            history.add(metrics(k, 0));
        }
        assert_eq!(history.size(), METRICS_HISTORY_CAPACITY);
        assert_eq!(history.get(METRICS_HISTORY_CAPACITY - 1).unwrap().amount_targets, n + 1);
        assert_eq!(history.get(0).unwrap().amount_targets, METRICS_HISTORY_CAPACITY + n);
        assert!(history.get(METRICS_HISTORY_CAPACITY).is_none());
    }
}

#[test]
fn get_walks_back_from_the_newest() {
    let mut history = MetricsHistory::new();
    for k in 1..=130 {
        history.add(metrics(k, 0));
    }
    for age in 0..METRICS_HISTORY_CAPACITY {
        assert_eq!(history.get(age).unwrap().amount_targets, 130 - age);
    }
}

#[test]
fn last_stops_at_the_first_entry_that_started_earlier() {
    let mut history = MetricsHistory::new();
    history.add(metrics(1, 100));
    history.add(metrics(2, 300));
    history.add(metrics(3, 200));
    history.add(metrics(4, 400));
    history.add(metrics(5, 500));
    let listed: Vec<usize> = history.last(Some(300)).iter().map(|m| m.amount_targets).collect();
    assert_eq!(listed, vec![5, 4]);
    let from_start: Vec<usize> = history.last(Some(0)).iter().map(|m| m.amount_targets).collect();
    assert_eq!(from_start, vec![5, 4, 3, 2, 1]);
    assert!(history.last(Some(501)).is_empty());
    let at_bound: Vec<usize> = history.last(Some(500)).iter().map(|m| m.amount_targets).collect();
    assert_eq!(at_bound, vec![5]);
}

#[test]
fn clear_empties_the_history() {
    let mut history = construct_dummy_history_big();
    history.clear();
    assert_eq!(history.size(), 0);
    assert!(history.get(0).is_none());
    history.add(metrics(9, 0));
    assert_eq!(history.size(), 1);
    assert_eq!(history.get(0).unwrap().amount_targets, 9);
}

#[test]
fn averaged_history_keeps_five() {
    let mut history = AveragedMetricsHistory::new();
    assert_eq!(history.size(), 0);
    assert!(history.get(0).is_none());
    for k in 1..=8 {
        history.add(averaged(k));
        assert_eq!(history.get(0).unwrap().amount_intervals, k);
    }
    assert_eq!(history.size(), AVERAGED_HISTORY_CAPACITY);
    let listed: Vec<usize> = history.last().iter().map(|a| a.amount_intervals).collect();
    assert_eq!(listed, vec![8, 7, 6, 5, 4]);
    assert_eq!(history.get(4).unwrap().amount_intervals, 4);
    assert!(history.get(5).is_none());
    history.clear();
    assert_eq!(history.size(), 0);
    assert!(history.last().is_empty());
}
