use task_dispatcher::config::SchedulingPolicy;
use task_dispatcher::dispatcher::{Dispatcher, select_queue};
use task_dispatcher::task::{Task, TaskKind};
use task_dispatcher::task::TaskKind::{Cpu, Io};

fn wrr(cpu_weight: usize, io_weight: usize) -> SchedulingPolicy {
    SchedulingPolicy::WeightedRoundRobin { cpu_weight, io_weight }
}

#[test]
fn fifo_prefers_cpu_queue() {
    let p = SchedulingPolicy::Fifo;
    assert_eq!(select_queue(&p, 1, 1, true, true), (Some(TaskKind::Cpu), 1, 1));
    assert_eq!(select_queue(&p, 1, 1, false, true), (Some(TaskKind::Io), 1, 1));
    assert_eq!(select_queue(&p, 1, 1, true, false), (Some(TaskKind::Cpu), 1, 1));
    assert_eq!(select_queue(&p, 1, 1, false, false), (None, 1, 1));
}

#[test]
fn wrr_spends_tokens_then_refills() {
    let p = wrr(2, 1);
    assert_eq!(select_queue(&p, 2, 1, true, true), (Some(TaskKind::Cpu), 1, 1));
    assert_eq!(select_queue(&p, 1, 1, true, true), (Some(TaskKind::Cpu), 0, 1));
    assert_eq!(select_queue(&p, 0, 1, true, true), (Some(TaskKind::Io), 0, 0));
    assert_eq!(select_queue(&p, 0, 0, true, true), (Some(TaskKind::Cpu), 1, 1));
    assert_eq!(select_queue(&p, 0, 0, false, true), (Some(TaskKind::Io), 2, 0));
}

#[test]
fn wrr_idle_queues_keep_tokens() {
    let p = wrr(2, 1);
    assert_eq!(select_queue(&p, 1, 0, false, false), (None, 1, 0));
}

#[test]
fn wrr_zero_weight_queue_is_never_served() {
    let p = wrr(0, 1);
    assert_eq!(select_queue(&p, 0, 1, true, false), (None, 0, 1));
    let p = wrr(0, 0);
    assert_eq!(select_queue(&p, 0, 0, true, true), (None, 0, 0));
}

fn task(id: u64, kind: TaskKind) -> Task {
    Task::new(id, kind, 1_000_000, id as u128)
}

fn drain(d: &mut Dispatcher, rounds: usize) -> Vec<Option<(TaskKind, u64)>> {
    (0..rounds).map(|_| d.dispatch_next().map(|t| (t.kind, t.id))).collect()
}

#[test]
fn dispatcher_fifo_serves_cpu_then_io_in_order() {
    let mut d = Dispatcher::new(2, SchedulingPolicy::Fifo);
    d.submit_task(task(0, TaskKind::Io));
    d.submit_task(task(1, TaskKind::Cpu));
    d.submit_task(task(2, TaskKind::Io));
    d.submit_task(task(3, TaskKind::Cpu));
    assert_eq!(d.queue_lengths(), (2, 2));
    let got = drain(&mut d, 5);
    assert_eq!(
        got,
        vec![
            Some((TaskKind::Cpu, 1)),
            Some((TaskKind::Cpu, 3)),
            Some((TaskKind::Io, 0)),
            Some((TaskKind::Io, 2)),
            None,
        ]
    );
    assert_eq!(d.queue_lengths(), (0, 0));
}

#[test]
fn dispatcher_weighted_round_robin_two_to_one() {
    let mut d = Dispatcher::new(3, wrr(2, 1));
    for id in 0..6 {
        d.submit_task(task(id, TaskKind::Cpu));
    }
    for id in 10..13 {
        d.submit_task(task(id, TaskKind::Io));
    }
    let got = drain(&mut d, 9);
    let kinds: Vec<TaskKind> = got.iter().map(|x| x.unwrap().0).collect();
    assert_eq!(kinds, vec![Cpu, Cpu, Io, Cpu, Cpu, Io, Cpu, Cpu, Io]);
    let ids: Vec<u64> = got.iter().map(|x| x.unwrap().1).collect();
    assert_eq!(ids, vec![0, 1, 10, 2, 3, 11, 4, 5, 12]);
}

#[test]
fn io_waits_at_most_twice_the_cpu_weight() {
    // Spend the I/O token while the CPU queue is empty, then let both queues fill.
    let mut d = Dispatcher::new(1, wrr(2, 1));
    d.submit_task(task(100, TaskKind::Io));
    assert_eq!(d.dispatch_next().map(|t| t.id), Some(100));
    for id in 0..10 {
        d.submit_task(task(id, TaskKind::Cpu));
    }
    d.submit_task(task(101, TaskKind::Io));
    let kinds: Vec<TaskKind> = drain(&mut d, 5).iter().map(|x| x.unwrap().0).collect();
    assert_eq!(kinds, vec![Cpu, Cpu, Cpu, Cpu, Io]);
}

#[test]
fn cpu_waits_at_most_io_weight_plus_one() {
    let mut d = Dispatcher::new(1, wrr(1, 3));
    d.submit_task(task(0, TaskKind::Cpu));
    assert_eq!(d.dispatch_next().map(|t| t.id), Some(0));
    for id in 10..20 {
        d.submit_task(task(id, TaskKind::Io));
    }
    d.submit_task(task(1, TaskKind::Cpu));
    let kinds: Vec<TaskKind> = drain(&mut d, 4).iter().map(|x| x.unwrap().0).collect();
    assert_eq!(kinds, vec![Io, Io, Io, Cpu]);
}

#[test]
fn workers_are_assigned_in_rotation() {
    let mut d = Dispatcher::new(3, SchedulingPolicy::Fifo);
    let got: Vec<usize> = (0..7).map(|_| d.assign_worker()).collect();
    assert_eq!(got, vec![0, 1, 2, 0, 1, 2, 0]);
    assert_eq!(d.num_workers(), 3);
}

#[test]
fn new_dispatcher_is_empty() {
    let d = Dispatcher::new(4, wrr(5, 7));
    assert_eq!(d.queue_lengths(), (0, 0));
    assert_eq!(d.num_workers(), 4);
    assert!(matches!(d.policy(), SchedulingPolicy::WeightedRoundRobin { cpu_weight: 5, io_weight: 7 }));
    assert_eq!(wrr(5, 7).token_weights(), (5, 7));
    assert_eq!(SchedulingPolicy::Fifo.token_weights(), (1, 1));
}

#[test]
fn round_robin_balances_workers() {
    let mut d = Dispatcher::new(4, SchedulingPolicy::Fifo);
    let mut counts = [0usize; 4];
    for k in 0..10 {
        let w = d.assign_worker();
        assert_eq!(w, k % 4);
        counts[w] += 1;
    }
    assert_eq!(counts, [3, 3, 2, 2]);
}
