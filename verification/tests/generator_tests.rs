use rand::{RngCore, SeedableRng};
use rand::rngs::StdRng;
use task_dispatcher::config::Config;
use task_dispatcher::generator::{
    arrival_bounds, build_tasks, duration_bounds, generate_tasks, TaskDraw, NANOS_PER_MILLI,
};
use task_dispatcher::metrics::Metrics;
use task_dispatcher::task::{Task, TaskKind};

fn config(num_tasks: usize, cpu_ratio: (u32, u32), burst_mode: bool) -> Config {
    Config {
        num_workers: 8,
        num_tasks,
        cpu_ratio,
        arrival_spread_ms: 5000,
        cpu_duration_ms: (20, 100),
        io_duration_ms: (5, 30),
        burst_mode,
    }
}

fn fields(t: &Task) -> (u64, TaskKind, u128, u128, Option<u128>, Option<u128>) {
    (t.id, t.kind, t.duration, t.created_at, t.started_at, t.completed_at)
}

const START: u128 = 1_000_000_000;

#[test]
fn generated_tasks_follow_the_workload() {
    let cfg = config(500, (3, 10), false);
    let mut rng = StdRng::seed_from_u64(42);
    let tasks = generate_tasks(&cfg, &mut rng, START);
    assert_eq!(tasks.len(), 500);
    let mut seen = vec![false; 500];
    for t in &tasks {
        assert!(!seen[t.id as usize]);
        seen[t.id as usize] = true;
        let (lo, hi) = match t.kind {
            TaskKind::Cpu => cfg.cpu_duration_ms,
            TaskKind::Io => cfg.io_duration_ms,
        };
        assert_eq!(t.duration % NANOS_PER_MILLI, 0);
        assert!(lo as u128 * NANOS_PER_MILLI <= t.duration && t.duration <= hi as u128 * NANOS_PER_MILLI);
        assert!(t.created_at >= START);
        assert_eq!((t.created_at - START) % NANOS_PER_MILLI, 0);
        assert!(t.created_at - START <= 5000 * NANOS_PER_MILLI);
        assert_eq!(t.started_at, None);
        assert_eq!(t.completed_at, None);
    }
    for w in tasks.windows(2) {
        assert!(w[0].created_at < w[1].created_at
            || (w[0].created_at == w[1].created_at && w[0].id < w[1].id));
    }
    let cpu = tasks.iter().filter(|t| t.kind == TaskKind::Cpu).count();
    assert!(cpu > 100 && cpu < 200);
    // the draws spread over their ranges rather than sitting at an end
    assert!(tasks.iter().any(|t| t.kind == TaskKind::Cpu && t.duration > 20 * NANOS_PER_MILLI));
    assert!(tasks.iter().any(|t| t.kind == TaskKind::Io && t.duration < 30 * NANOS_PER_MILLI));
    assert!(tasks.iter().any(|t| t.created_at > START));
    assert!(tasks.last().unwrap().created_at > tasks[0].created_at);
}

#[test]
fn generation_is_reproducible() {
    let cfg = config(200, (3, 10), false);
    let a = generate_tasks(&cfg, &mut StdRng::seed_from_u64(42), START);
    let b = generate_tasks(&cfg, &mut StdRng::seed_from_u64(42), START);
    let fa: Vec<_> = a.iter().map(fields).collect();
    let fb: Vec<_> = b.iter().map(fields).collect();
    assert_eq!(fa, fb);
    let c = generate_tasks(&cfg, &mut StdRng::seed_from_u64(7), START);
    let fc: Vec<_> = c.iter().map(fields).collect();
    assert_ne!(fa, fc);
}

#[test]
fn certain_ratios_give_one_kind() {
    let all_io = generate_tasks(&config(50, (0, 10), false), &mut StdRng::seed_from_u64(1), START);
    assert!(all_io.iter().all(|t| t.kind == TaskKind::Io));
    let all_cpu = generate_tasks(&config(50, (10, 10), false), &mut StdRng::seed_from_u64(1), START);
    assert!(all_cpu.iter().all(|t| t.kind == TaskKind::Cpu));
}

#[test]
fn unused_kind_may_have_an_empty_range() {
    let mut cfg = config(30, (0, 1), false);
    cfg.cpu_duration_ms = (9, 1);
    let tasks = generate_tasks(&cfg, &mut StdRng::seed_from_u64(5), START);
    assert_eq!(tasks.len(), 30);
    let mut cfg = config(30, (1, 1), false);
    cfg.io_duration_ms = (9, 1);
    let tasks = generate_tasks(&cfg, &mut StdRng::seed_from_u64(5), START);
    assert!(tasks.iter().all(|t| t.kind == TaskKind::Cpu));
}

#[test]
fn burst_mode_releases_most_tasks_at_once() {
    let tasks = generate_tasks(&config(300, (1, 2), true), &mut StdRng::seed_from_u64(3), START);
    assert_eq!(tasks.len(), 300);
    for t in &tasks {
        if t.id % 100 < 80 {
            assert_eq!(t.created_at, START);
        } else {
            assert!(t.created_at - START <= 100 * NANOS_PER_MILLI);
        }
    }
    // everything that arrives at the start comes first, by id
    let at_start: Vec<u64> = tasks.iter().take_while(|t| t.created_at == START).map(|t| t.id).collect();
    assert!(at_start.len() >= 240);
    assert!(at_start.windows(2).all(|w| w[0] < w[1]));
}

#[test]
fn fixed_ranges_give_fixed_values() {
    let cfg = Config {
        num_workers: 1,
        num_tasks: 20,
        cpu_ratio: (1, 2),
        arrival_spread_ms: 0,
        cpu_duration_ms: (7, 7),
        io_duration_ms: (3, 3),
        burst_mode: false,
    };
    let tasks = generate_tasks(&cfg, &mut StdRng::seed_from_u64(9), START);
    for (i, t) in tasks.iter().enumerate() {
        assert_eq!(t.id, i as u64);
        assert_eq!(t.created_at, START);
        match t.kind {
            TaskKind::Cpu => assert_eq!(t.duration, 7 * NANOS_PER_MILLI),
            TaskKind::Io => assert_eq!(t.duration, 3 * NANOS_PER_MILLI),
        }
    }
}

#[test]
fn no_tasks_leave_the_generator_alone() {
    let mut rng = StdRng::seed_from_u64(42);
    let tasks = generate_tasks(&config(0, (3, 10), false), &mut rng, START);
    assert!(tasks.is_empty());
    assert_eq!(rng.next_u64(), StdRng::seed_from_u64(42).next_u64());
}

#[test]
fn build_tasks_orders_the_draws() {
    let draws = vec![
        TaskDraw { is_cpu: true, duration_ms: 50, arrival_offset_ms: 30 },
        TaskDraw { is_cpu: false, duration_ms: 7, arrival_offset_ms: 10 },
        TaskDraw { is_cpu: false, duration_ms: 9, arrival_offset_ms: 30 },
        TaskDraw { is_cpu: true, duration_ms: 20, arrival_offset_ms: 0 },
    ];
    let tasks = build_tasks(&draws, START);
    let got: Vec<_> = tasks.iter().map(fields).collect();
    let ms = NANOS_PER_MILLI;
    assert_eq!(
        got,
        vec![
            (3, TaskKind::Cpu, 20 * ms, START, None, None),
            (1, TaskKind::Io, 7 * ms, START + 10 * ms, None, None),
            (0, TaskKind::Cpu, 50 * ms, START + 30 * ms, None, None),
            (2, TaskKind::Io, 9 * ms, START + 30 * ms, None, None),
        ]
    );
    assert!(build_tasks(&Vec::new(), START).is_empty());
}

#[test]
fn draw_ranges_follow_the_config() {
    let cfg = config(10, (1, 3), false);
    assert_eq!(duration_bounds(&cfg, true), (20, 100));
    assert_eq!(duration_bounds(&cfg, false), (5, 30));
    assert_eq!(arrival_bounds(&cfg, 0), Some(5000));
    let burst = config(10, (1, 3), true);
    assert_eq!(arrival_bounds(&burst, 79), None);
    assert_eq!(arrival_bounds(&burst, 80), Some(100));
    assert_eq!(arrival_bounds(&burst, 199), Some(100));
    assert_eq!(arrival_bounds(&burst, 150), None);
}

#[test]
fn runs_at_different_starts_differ_only_by_the_shift() {
    let cfg = config(100, (3, 10), false);
    let a = generate_tasks(&cfg, &mut StdRng::seed_from_u64(42), START);
    let later = START + 7_123_456_789;
    let b = generate_tasks(&cfg, &mut StdRng::seed_from_u64(42), later);
    assert_eq!(a.len(), b.len());
    for (x, y) in a.iter().zip(b.iter()) {
        assert_eq!((x.id, x.kind, x.duration), (y.id, y.kind, y.duration));
        assert_eq!(x.created_at - START, y.created_at - later);
    }
}

#[test]
fn max_wait_never_decreases() {
    let mut m = Metrics::new(0);
    let mut t = Task::new(0, TaskKind::Io, 1, 0);
    t.start(50);
    m.record_completion(&t, 0, 1);
    assert_eq!(m.get_max_wait_time(), 50);
    let mut short = Task::new(1, TaskKind::Io, 1, 0);
    short.start(10);
    m.record_completion(&short, 0, 1);
    assert_eq!(m.get_max_wait_time(), 50);
    m.record_completion(&Task::new(2, TaskKind::Cpu, 1, 0), 0, 1);
    assert_eq!(m.get_max_wait_time(), 50);
}
