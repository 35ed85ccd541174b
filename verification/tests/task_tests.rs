use task_dispatcher::task::{Task, TaskKind, saturating_elapsed};

#[test]
fn new_task_has_not_started() {
    let t = Task::new(7, TaskKind::Io, 5_000_000, 1_000);
    assert_eq!(t.id, 7);
    assert_eq!(t.kind, TaskKind::Io);
    assert_eq!(t.duration, 5_000_000);
    assert_eq!(t.created_at, 1_000);
    assert_eq!(t.started_at, None);
    assert_eq!(t.completed_at, None);
    assert_eq!(t.wait_time(), None);
    assert_eq!(t.turnaround_time(), None);
}

#[test]
fn wait_time_counts_from_creation_to_start() {
    let mut t = Task::new(1, TaskKind::Cpu, 10, 1_000);
    t.start(4_500);
    assert_eq!(t.started_at, Some(4_500));
    assert_eq!(t.wait_time(), Some(3_500));
    assert_eq!(t.turnaround_time(), None);
}

#[test]
fn wait_time_saturates_when_started_before_creation() {
    let mut t = Task::new(1, TaskKind::Cpu, 10, 1_000);
    t.start(400);
    assert_eq!(t.wait_time(), Some(0));
}

#[test]
fn turnaround_needs_start_and_completion() {
    let mut t = Task::new(2, TaskKind::Io, 10, 100);
    t.complete(900);
    assert_eq!(t.completed_at, Some(900));
    assert_eq!(t.turnaround_time(), None);
    t.start(300);
    assert_eq!(t.turnaround_time(), Some(800));
    assert_eq!(t.wait_time(), Some(200));
}

#[test]
fn start_and_complete_keep_other_fields() {
    let mut t = Task::new(3, TaskKind::Cpu, 42, 10);
    t.start(20);
    t.complete(70);
    assert_eq!(t.id, 3);
    assert_eq!(t.kind, TaskKind::Cpu);
    assert_eq!(t.duration, 42);
    assert_eq!(t.created_at, 10);
    assert_eq!(t.started_at, Some(20));
    assert_eq!(t.completed_at, Some(70));
}

#[test]
fn wait_never_exceeds_turnaround() {
    for (created, start, end) in [(0u128, 0u128, 0u128), (5, 10, 10), (10, 5, 20), (100, 150, 400)] {
        let mut t = Task::new(0, TaskKind::Io, 1, created);
        t.start(start);
        t.complete(end);
        assert!(t.wait_time().unwrap() <= t.turnaround_time().unwrap());
    }
}

#[test]
fn saturating_elapsed_values() {
    assert_eq!(saturating_elapsed(10, 3), 7);
    assert_eq!(saturating_elapsed(3, 10), 0);
    assert_eq!(saturating_elapsed(u128::MAX, 0), u128::MAX);
}
