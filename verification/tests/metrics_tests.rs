use task_dispatcher::metrics::{Metrics, MAX_DURATION_NANOS, MONITOR_INTERVAL_NANOS};
use task_dispatcher::task::{Task, TaskKind};

const MS: u128 = 1_000_000;

fn finished(id: u64, kind: TaskKind, created: u128, started: u128, completed: u128) -> Task {
    let mut t = Task::new(id, kind, completed - started, created);
    t.start(started);
    t.complete(completed);
    t
}

#[test]
fn new_metrics_are_empty() {
    let m = Metrics::new(5 * MS);
    assert_eq!(m.get_completed_count(), 0);
    assert_eq!(m.get_cpu_completed_count(), 0);
    assert_eq!(m.get_io_completed_count(), 0);
    assert_eq!(m.get_avg_wait_time(), 0);
    assert_eq!(m.get_avg_wait_time_io(), 0);
    assert_eq!(m.get_avg_wait_time_cpu(), 0);
    assert_eq!(m.get_avg_turnaround_time(), 0);
    assert_eq!(m.get_max_wait_time(), 0);
    assert_eq!(m.get_monitor_sample_count(), 0);
    assert_eq!(m.get_total_busy_time(), Some(0));
    assert_eq!(m.get_active_workers_total(), Some(0));
    assert_eq!(m.get_active_workers_sample_count(), 0);
    assert_eq!(m.get_makespan(5 * MS), 0);
    assert_eq!(m.get_makespan(12 * MS), 7 * MS);
    assert_eq!(m.get_makespan(0), 0);
}

#[test]
fn completions_are_counted_and_averaged() {
    let mut m = Metrics::new(0);
    let a = finished(0, TaskKind::Cpu, 0, 10 * MS, 50 * MS);
    let b = finished(1, TaskKind::Io, 0, 30 * MS, 40 * MS);
    let c = finished(2, TaskKind::Io, 5 * MS, 25 * MS, 45 * MS);
    assert!(m.completion_fits(&a, 0, 40 * MS));
    m.record_completion(&a, 0, 40 * MS);
    m.record_completion(&b, 1, 10 * MS);
    m.record_completion(&c, 0, 20 * MS);

    assert_eq!(m.get_completed_count(), 3);
    assert_eq!(m.get_cpu_completed_count(), 1);
    assert_eq!(m.get_io_completed_count(), 2);
    // waits: 10, 30, 20 ms; turnarounds: 50, 40, 40 ms
    assert_eq!(m.get_avg_wait_time(), 60 * MS / 3);
    assert_eq!(m.get_avg_wait_time_cpu(), 10 * MS);
    assert_eq!(m.get_avg_wait_time_io(), 25 * MS);
    assert_eq!(m.get_avg_turnaround_time(), 130 * MS / 3);
    assert_eq!(m.get_max_wait_time(), 30 * MS);
    assert!(m.get_avg_wait_time() <= m.get_max_wait_time());
    assert_eq!(m.get_total_busy_time(), Some(70 * MS));
}

#[test]
fn averages_round_down() {
    let mut m = Metrics::new(0);
    m.record_completion(&finished(0, TaskKind::Io, 0, 1, 1), 0, 0);
    m.record_completion(&finished(1, TaskKind::Io, 0, 1, 1), 0, 0);
    m.record_completion(&finished(2, TaskKind::Io, 0, 0, 1), 0, 0);
    assert_eq!(m.get_avg_wait_time(), 0); // 2 / 3
    assert_eq!(m.get_avg_turnaround_time(), 1); // 3 / 3
}

#[test]
fn unstarted_task_counts_without_wait() {
    let mut m = Metrics::new(0);
    let t = Task::new(9, TaskKind::Cpu, 1, 0);
    m.record_completion(&t, 2, 3 * MS);
    assert_eq!(m.get_completed_count(), 1);
    assert_eq!(m.get_cpu_completed_count(), 1);
    assert_eq!(m.get_avg_wait_time(), 0);
    assert_eq!(m.get_max_wait_time(), 0);
    assert_eq!(m.get_avg_turnaround_time(), 0);
    assert_eq!(m.get_total_busy_time(), Some(3 * MS));
}

#[test]
fn busy_time_grows_to_the_worker_seen() {
    let mut m = Metrics::new(0);
    m.record_completion(&finished(0, TaskKind::Cpu, 0, 0, MS), 3, 7 * MS);
    // four workers known now (0..=3): capacity is elapsed time times four
    assert_eq!(m.get_busy_capacity(10 * MS), Some(40 * MS));
    m.record_completion(&finished(1, TaskKind::Cpu, 0, 0, MS), 1, 2 * MS);
    assert_eq!(m.get_busy_capacity(10 * MS), Some(40 * MS));
    assert_eq!(m.get_total_busy_time(), Some(9 * MS));
}

#[test]
fn busy_capacity_overflow_is_reported() {
    let mut m = Metrics::new(0);
    m.record_completion(&finished(0, TaskKind::Cpu, 0, 0, 0), 1, 0);
    assert_eq!(m.get_busy_capacity(u64::MAX as u128), Some(2 * u64::MAX as u128));
    assert_eq!(m.get_busy_capacity(MAX_DURATION_NANOS / 2), Some(MAX_DURATION_NANOS / 2 * 2));
    assert_eq!(m.get_busy_capacity(MAX_DURATION_NANOS / 2 + 1), None);
    let empty = Metrics::new(0);
    assert_eq!(empty.get_busy_capacity(u128::MAX), Some(0));
}

#[test]
fn completion_that_would_overflow_does_not_fit() {
    let m = Metrics::new(0);
    let t = finished(0, TaskKind::Io, 0, 1, 2);
    assert!(!m.completion_fits(&t, usize::MAX, 0));
    assert!(m.completion_fits(&t, usize::MAX - 1, MAX_DURATION_NANOS));
    assert!(!m.completion_fits(&t, 0, MAX_DURATION_NANOS + 1));
    let late = finished(1, TaskKind::Io, 0, MAX_DURATION_NANOS + 1, MAX_DURATION_NANOS + 1);
    assert!(!m.completion_fits(&late, 0, 0));
}

#[test]
fn monitor_samples_are_spaced() {
    let mut m = Metrics::new(1_000);
    m.record_queue_length(5, 2, 1_000);
    m.record_queue_length(6, 3, 1_000 + 50 * MS);
    m.record_queue_length(7, 4, 1_000 + MONITOR_INTERVAL_NANOS);
    m.record_queue_length(8, 1, 1_000 + MONITOR_INTERVAL_NANOS + 99 * MS);
    m.record_queue_length(9, 0, 1_000 + 2 * MONITOR_INTERVAL_NANOS);
    assert_eq!(m.get_monitor_sample_count(), 3);
    let samples = m.get_monitor_samples();
    let stamps: Vec<u128> = samples.iter().map(|s| s.timestamp).collect();
    assert_eq!(stamps, vec![0, MONITOR_INTERVAL_NANOS, 2 * MONITOR_INTERVAL_NANOS]);
    let lens: Vec<usize> = samples.iter().map(|s| s.queue_length).collect();
    assert_eq!(lens, vec![5, 7, 9]);
    let active: Vec<usize> = samples.iter().map(|s| s.active_workers).collect();
    assert_eq!(active, vec![2, 4, 0]);
    assert_eq!(m.get_active_workers_sample_count(), 5);
    assert_eq!(m.get_active_workers_total(), Some(10));
}

#[test]
fn monitor_sample_records_completed_count() {
    let mut m = Metrics::new(0);
    m.record_completion(&finished(0, TaskKind::Io, 0, 0, 0), 0, 0);
    m.record_queue_length(0, 0, 0);
    assert_eq!(m.get_monitor_samples()[0].completed_tasks, 1);
}

#[test]
fn sample_time_must_not_run_back() {
    let mut m = Metrics::new(0);
    assert!(m.sample_time_ok(0));
    m.record_queue_length(1, 1, 500 * MS);
    assert!(m.sample_time_ok(500 * MS));
    assert!(!m.sample_time_ok(499 * MS));
}

#[test]
fn active_worker_sum_overflow_is_reported() {
    let mut m = Metrics::new(0);
    m.record_queue_length(0, usize::MAX, 0);
    assert_eq!(m.get_active_workers_total(), Some(usize::MAX));
    m.record_queue_length(0, 1, 0);
    assert_eq!(m.get_active_workers_total(), None);
}

#[test]
fn record_order_does_not_matter() {
    let a = finished(0, TaskKind::Cpu, 0, 10 * MS, 50 * MS);
    let b = finished(1, TaskKind::Io, 0, 30 * MS, 40 * MS);
    let c = finished(2, TaskKind::Io, 5 * MS, 25 * MS, 45 * MS);
    let mut m1 = Metrics::new(0);
    m1.record_completion(&a, 0, 40 * MS);
    m1.record_completion(&b, 3, 10 * MS);
    m1.record_completion(&c, 0, 20 * MS);
    let mut m2 = Metrics::new(0);
    m2.record_completion(&c, 0, 20 * MS);
    m2.record_completion(&a, 0, 40 * MS);
    m2.record_completion(&b, 3, 10 * MS);
    assert_eq!(m1.get_completed_count(), m2.get_completed_count());
    assert_eq!(m1.get_avg_wait_time(), m2.get_avg_wait_time());
    assert_eq!(m1.get_avg_wait_time_io(), m2.get_avg_wait_time_io());
    assert_eq!(m1.get_avg_wait_time_cpu(), m2.get_avg_wait_time_cpu());
    assert_eq!(m1.get_avg_turnaround_time(), m2.get_avg_turnaround_time());
    assert_eq!(m1.get_max_wait_time(), m2.get_max_wait_time());
    assert_eq!(m1.get_total_busy_time(), m2.get_total_busy_time());
    assert_eq!(m1.get_busy_capacity(100 * MS), m2.get_busy_capacity(100 * MS));
}

#[test]
fn monitor_count_is_bounded_by_elapsed_time() {
    let mut m = Metrics::new(0);
    let mut now = 0;
    for _ in 0..50 {
        m.record_queue_length(1, 0, now);
        now += 30 * MS;
    }
    let elapsed = m.get_makespan(now);
    assert!(m.get_monitor_sample_count() as u128 <= 1 + elapsed / MONITOR_INTERVAL_NANOS);
    assert!(m.get_monitor_sample_count() >= 1);
    let samples = m.get_monitor_samples();
    assert!(samples.windows(2).all(|w| w[1].timestamp >= w[0].timestamp + MONITOR_INTERVAL_NANOS));
}

#[test]
fn turnaround_average_example() {
    let mut m = Metrics::new(0);
    m.record_completion(&finished(0, TaskKind::Cpu, 0, 5 * MS, 20 * MS), 0, 15 * MS);
    m.record_completion(&finished(1, TaskKind::Io, 0, 10 * MS, 40 * MS), 1, 30 * MS);
    assert_eq!(m.get_avg_turnaround_time(), 30 * MS);
}
