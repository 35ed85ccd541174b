use vstd::prelude::*;
use rand::rngs::StdRng;
use crate::task::{Task, TaskKind};
use crate::config::Config;
use crate::random::{gen_ratio, gen_range_inclusive, RatioDraw, RangeDraw};

verus! {

broadcast use vstd::seq_lib::group_to_multiset_ensures;

/// Nanoseconds in a millisecond.
pub const NANOS_PER_MILLI: u128 = 1_000_000;

/// `a` arrives before `b`: earlier, or at the same instant with a smaller id.
pub open spec fn arrives_before(a: Task, b: Task) -> bool {
    a.created_at < b.created_at || (a.created_at == b.created_at && a.id < b.id)
}

/// The tasks are in order of arrival, ties broken by id.
pub open spec fn in_arrival_order(s: Seq<Task>) -> bool {
    forall|i: int, j: int| 0 <= i < j < s.len() ==> arrives_before(#[trigger] s[i], #[trigger] s[j])
}

/// Some task in `s` has id `id`.
pub open spec fn has_task_id(s: Seq<Task>, id: int) -> bool {
    exists|j: int| 0 <= j < s.len() && #[trigger] s[j].id == id
}

/// What was drawn for one task: its kind, its duration and its arrival
/// offset, both in milliseconds.
#[derive(Clone, Copy, Debug)]
pub struct TaskDraw {
    pub is_cpu: bool,
    pub duration_ms: u64,
    pub arrival_offset_ms: u64,
}

/// The kind a draw gives.
pub open spec fn draw_kind(draw: TaskDraw) -> TaskKind {
    if draw.is_cpu {
        TaskKind::Cpu
    } else {
        TaskKind::Io
    }
}

/// The task with id `id` that a draw gives: fresh, with the drawn kind and
/// duration, arriving the drawn offset after `start_time`.
pub open spec fn drawn_task(id: int, draw: TaskDraw, start_time: u128) -> Task {
    Task {
        id: id as u64,
        kind: draw_kind(draw),
        duration: (draw.duration_ms * NANOS_PER_MILLI) as u128,
        created_at: (start_time + draw.arrival_offset_ms * NANOS_PER_MILLI) as u128,
        started_at: None,
        completed_at: None,
    }
}

/// The tasks that the draws give, task `i` from draw `i`, in drawing order.
pub open spec fn drawn_tasks(draws: Seq<TaskDraw>, start_time: u128) -> Seq<Task> {
    Seq::new(draws.len(), |i: int| drawn_task(i, draws[i], start_time))
}

/// Every arrival the draws give is an instant that can be represented.
pub open spec fn draws_fit(draws: Seq<TaskDraw>, start_time: u128) -> bool {
    forall|i: int|
        0 <= i < draws.len() ==> start_time + (#[trigger] draws[i]).arrival_offset_ms * NANOS_PER_MILLI
            <= u128::MAX
}

/// The largest arrival offset, in milliseconds, that a task of `config` can get.
pub open spec fn max_arrival_ms(config: &Config) -> u64 {
    if config.burst_mode {
        100
    } else {
        config.arrival_spread_ms
    }
}

/// The duration range, in milliseconds, of a task of the given kind.
pub open spec fn duration_range_ms(config: &Config, kind: TaskKind) -> (u64, u64) {
    match kind {
        TaskKind::Cpu => config.cpu_duration_ms,
        TaskKind::Io => config.io_duration_ms,
    }
}

/// Whether task `id` draws its arrival offset, and from which range:
/// `None` for the first 80 of every 100 ids in burst mode, which arrive at
/// once; else `Some(max)` for an offset drawn from `0..=max`.
pub open spec fn arrival_range_ms(config: &Config, id: int) -> Option<u64> {
    if config.burst_mode && id % 100 < 80 {
        None
    } else {
        Some(max_arrival_ms(config))
    }
}

/// What a draw for task `id` can be: a kind the CPU share allows (a share
/// of 0 never gives a CPU task, a share of 1 never an I/O task), a duration
/// within that kind's range, and an arrival offset as `arrival_range_ms` says.
pub open spec fn draw_ok(config: &Config, id: int, draw: TaskDraw) -> bool {
    let range = duration_range_ms(config, draw_kind(draw));
    &&& (draw.is_cpu ==> config.cpu_ratio.0 > 0)
    &&& (!draw.is_cpu ==> config.cpu_ratio.0 < config.cpu_ratio.1)
    &&& range.0 <= draw.duration_ms <= range.1
    &&& match arrival_range_ms(config, id) {
        None => draw.arrival_offset_ms == 0,
        Some(max) => draw.arrival_offset_ms <= max,
    }
}

/// The draws are what rand drew as `config` says, task by task: the kind
/// with chance `cpu_ratio`, the duration from the whole range of that kind,
/// and the arrival offset, for a task that draws one, from the whole range
/// `0..=max_arrival_ms(config)`. `kinds`, `durations` and `arrivals` are
/// rand's draws, each kept with the chance or range it was drawn with.
pub open spec fn drawn_as_configured(
    config: &Config,
    draws: Seq<TaskDraw>,
    kinds: Seq<RatioDraw>,
    durations: Seq<RangeDraw>,
    arrivals: Seq<Option<RangeDraw>>,
) -> bool {
    &&& kinds.len() == draws.len()
    &&& durations.len() == draws.len()
    &&& arrivals.len() == draws.len()
    &&& forall|i: int|
        0 <= i < draws.len() ==> {
            &&& (#[trigger] kinds[i]).ratio() == config.cpu_ratio
            &&& kinds[i].drawn() == draws[i].is_cpu
        }
    &&& forall|i: int|
        0 <= i < draws.len() ==> {
            &&& (#[trigger] durations[i]).range() == duration_range_ms(config, draw_kind(draws[i]))
            &&& durations[i].drawn() == draws[i].duration_ms
        }
    &&& forall|i: int|
        0 <= i < draws.len() ==> match arrival_range_ms(config, i) {
            None => (#[trigger] arrivals[i]) is None && draws[i].arrival_offset_ms == 0,
            Some(max) => {
                &&& arrivals[i] is Some
                &&& arrivals[i]->0.range() == (0u64, max)
                &&& arrivals[i]->0.drawn() == draws[i].arrival_offset_ms
            },
        }
}

/// The tasks are the tasks of `draws`, in order of arrival.
pub open spec fn built_from(tasks: Seq<Task>, draws: Seq<TaskDraw>, start_time: u128) -> bool {
    &&& tasks.to_multiset() == drawn_tasks(draws, start_time).to_multiset()
    &&& in_arrival_order(tasks)
}

/// What `generate_tasks` needs of its inputs: when there are tasks to draw,
/// a valid CPU share, a nonempty duration range for each kind the share can
/// give, and arrivals that can be represented.
pub open spec fn generation_ok(config: &Config, start_time: u128) -> bool {
    config.num_tasks > 0 ==> {
        &&& 0 < config.cpu_ratio.1
        &&& config.cpu_ratio.0 <= config.cpu_ratio.1
        &&& (config.cpu_ratio.0 > 0 ==> config.cpu_duration_ms.0 <= config.cpu_duration_ms.1)
        &&& (config.cpu_ratio.0 < config.cpu_ratio.1 ==> config.io_duration_ms.0
            <= config.io_duration_ms.1)
        &&& start_time + max_arrival_ms(config) * NANOS_PER_MILLI <= u128::MAX
    }
}

/// The duration range, in milliseconds, that a task's duration is drawn from.
pub fn duration_bounds(config: &Config, is_cpu: bool) -> (r: (u64, u64))
    ensures
        r == duration_range_ms(config, if is_cpu { TaskKind::Cpu } else { TaskKind::Io }),
{
    if is_cpu {
        config.cpu_duration_ms
    } else {
        config.io_duration_ms
    }
}

/// The range, in milliseconds, that task `id`'s arrival offset is drawn
/// from, or `None` when it arrives at once.
pub fn arrival_bounds(config: &Config, id: usize) -> (r: Option<u64>)
    ensures
        r == arrival_range_ms(config, id as int),
{
    if config.burst_mode {
        if id % 100 < 80 {
            None
        } else {
            Some(100)
        }
    } else {
        Some(config.arrival_spread_ms)
    }
}

/// Builds the tasks that `draws` give (task `i` from draw `i`, arriving
/// relative to `start_time`) and returns them in order of arrival; among
/// tasks that arrive together the smaller id comes first, as a stable sort
/// by arrival gives. The result is exactly determined: see
/// `lemma_arrival_order_unique`.
pub fn build_tasks(draws: &Vec<TaskDraw>, start_time: u128) -> (tasks: Vec<Task>)
    requires
        draws_fit(draws@, start_time),
    ensures
        tasks.len() == draws.len(),
        built_from(tasks@, draws@, start_time),
{
    let n = draws.len();
    let mut tasks: Vec<Task> = Vec::with_capacity(n);
    for i in 0..n
        invariant
            n == draws.len(),
            draws_fit(draws@, start_time),
            tasks@ == drawn_tasks(draws@, start_time).take(i as int),
    {
        let draw = draws[i];
        assert(start_time + draw.arrival_offset_ms * NANOS_PER_MILLI <= u128::MAX);
        let kind = if draw.is_cpu {
            TaskKind::Cpu
        } else {
            TaskKind::Io
        };
        let task = Task::new(
            i as u64,
            kind,
            draw.duration_ms as u128 * NANOS_PER_MILLI,
            start_time + draw.arrival_offset_ms as u128 * NANOS_PER_MILLI,
        );
        tasks.push(task);
        assert(tasks@ =~= drawn_tasks(draws@, start_time).take(i + 1));
    }
    assert(tasks@ =~= drawn_tasks(draws@, start_time));
    sort_by_arrival(tasks)
}

/// Draws `config.num_tasks` tasks from `rng` and returns them in order of
/// arrival. For task `id` in turn it draws the kind (CPU with chance
/// `cpu_ratio`), then a duration from that kind's range, then the arrival
/// offset from `arrival_bounds`; `build_tasks` then makes and orders the tasks.
/// With no tasks to draw the generator is left as it was.
pub fn generate_tasks(config: &Config, rng: &mut StdRng, start_time: u128) -> (tasks: Vec<Task>)
    requires
        generation_ok(config, start_time),
    ensures
        tasks.len() == config.num_tasks,
        exists|draws: Seq<TaskDraw>|
            #![trigger built_from(tasks@, draws, start_time)]
            draws.len() == config.num_tasks && (forall|i: int|
                0 <= i < draws.len() ==> draw_ok(config, i, #[trigger] draws[i])) && built_from(
                tasks@,
                draws,
                start_time,
            ),
        in_arrival_order(tasks@),
        forall|k: int| 0 <= k < config.num_tasks ==> #[trigger] has_task_id(tasks@, k),
        config.cpu_ratio.0 == config.cpu_ratio.1 ==> forall|j: int|
            0 <= j < tasks.len() ==> (#[trigger] tasks@[j]).kind == TaskKind::Cpu,
        config.cpu_ratio.0 == 0 ==> forall|j: int|
            0 <= j < tasks.len() ==> (#[trigger] tasks@[j]).kind == TaskKind::Io,
        exists|
            draws: Seq<TaskDraw>,
            kinds: Seq<RatioDraw>,
            durations: Seq<RangeDraw>,
            arrivals: Seq<Option<RangeDraw>>,
        |
            #![trigger drawn_as_configured(config, draws, kinds, durations, arrivals)]
            draws.len() == config.num_tasks && drawn_as_configured(
                config,
                draws,
                kinds,
                durations,
                arrivals,
            ) && built_from(tasks@, draws, start_time),
        config.num_tasks == 0 ==> *final(rng) == *old(rng),
{
    let n = config.num_tasks;
    let mut draws: Vec<TaskDraw> = Vec::with_capacity(n);
    let ghost mut kinds: Seq<RatioDraw> = Seq::empty();
    let ghost mut durations: Seq<RangeDraw> = Seq::empty();
    let ghost mut arrivals: Seq<Option<RangeDraw>> = Seq::empty();
    for id in 0..n
        invariant
            n == config.num_tasks,
            generation_ok(config, start_time),
            draws.len() == id,
            forall|i: int| 0 <= i < id ==> draw_ok(config, i, #[trigger] draws@[i]),
            drawn_as_configured(config, draws@, kinds, durations, arrivals),
            id == 0 ==> *rng == *old(rng),
    {
        let kind_draw = gen_ratio(rng, config.cpu_ratio.0, config.cpu_ratio.1);
        let is_cpu = kind_draw.value();
        let (low, high) = duration_bounds(config, is_cpu);
        let duration_draw = gen_range_inclusive(rng, low, high);
        let duration_ms = duration_draw.value();
        let arrival_offset_ms = match arrival_bounds(config, id) {
            None => {
                proof {
                    arrivals = arrivals.push(None);
                }
                0
            },
            Some(max) => {
                let arrival_draw = gen_range_inclusive(rng, 0, max);
                proof {
                    arrivals = arrivals.push(Some(arrival_draw));
                }
                arrival_draw.value()
            },
        };
        proof {
            kinds = kinds.push(kind_draw);
            durations = durations.push(duration_draw);
        }
        draws.push(TaskDraw { is_cpu, duration_ms, arrival_offset_ms });
    }
    proof {
        assert forall|i: int| 0 <= i < draws@.len() implies start_time + (#[trigger] draws@[i]).arrival_offset_ms
            * NANOS_PER_MILLI <= u128::MAX by {
            assert(draw_ok(config, i, draws@[i]));
            assert(draws@[i].arrival_offset_ms * NANOS_PER_MILLI <= max_arrival_ms(config)
                * NANOS_PER_MILLI) by (nonlinear_arith)
                requires
                    draws@[i].arrival_offset_ms <= max_arrival_ms(config),
            ;
        }
    }
    let tasks = build_tasks(&draws, start_time);
    proof {
        let drawn = drawn_tasks(draws@, start_time);
        assert forall|k: int| 0 <= k < config.num_tasks implies #[trigger] has_task_id(tasks@, k) by {
            assert(drawn[k].id == k);
            assert(drawn.contains(drawn[k]));
            assert(tasks@.to_multiset().count(drawn[k]) > 0);
            assert(tasks@.contains(drawn[k]));
            let j = choose|j: int| 0 <= j < tasks.len() && tasks@[j] == drawn[k];
            assert(tasks@[j].id == k);
        }
        assert forall|j: int| 0 <= j < tasks.len() implies exists|i: int|
            0 <= i < draws.len() && #[trigger] tasks@[j] == drawn[i] by {
            assert(tasks@.contains(tasks@[j]));
            assert(drawn.to_multiset().count(tasks@[j]) > 0);
            assert(drawn.contains(tasks@[j]));
        }
        if config.cpu_ratio.0 == config.cpu_ratio.1 {
            assert forall|j: int| 0 <= j < tasks.len() implies (#[trigger] tasks@[j]).kind == TaskKind::Cpu by {
                let i = choose|i: int| 0 <= i < draws.len() && tasks@[j] == drawn[i];
                assert(draw_ok(config, i, draws@[i]));
            }
        }
        if config.cpu_ratio.0 == 0 {
            assert forall|j: int| 0 <= j < tasks.len() implies (#[trigger] tasks@[j]).kind == TaskKind::Io by {
                let i = choose|i: int| 0 <= i < draws.len() && tasks@[j] == drawn[i];
                assert(draw_ok(config, i, draws@[i]));
            }
        }
        assert(built_from(tasks@, draws@, start_time));
        assert(drawn_as_configured(config, draws@, kinds, durations, arrivals));
    }
    tasks
}

/// Each generated task carries rand's draws for it: task `id`'s kind is the
/// bool rand drew with chance `cpu_ratio`, its duration is the number of
/// milliseconds rand drew from the whole range of that kind, and its arrival
/// is `start_time` plus the milliseconds rand drew from the whole range
/// `0..=max_arrival_ms(config)` (or exactly `start_time` for a burst task that
/// draws none).
pub proof fn lemma_tasks_carry_full_range_draws(
    config: &Config,
    start_time: u128,
    tasks: Seq<Task>,
    draws: Seq<TaskDraw>,
    kinds: Seq<RatioDraw>,
    durations: Seq<RangeDraw>,
    arrivals: Seq<Option<RangeDraw>>,
)
    requires
        drawn_as_configured(config, draws, kinds, durations, arrivals),
        built_from(tasks, draws, start_time),
        draws_fit(draws, start_time),
        draws.len() <= u64::MAX,
    ensures
        forall|j: int|
            0 <= j < tasks.len() ==> {
                let t = #[trigger] tasks[j];
                let i = t.id as int;
                &&& 0 <= i < draws.len()
                &&& kinds[i].ratio() == config.cpu_ratio
                &&& (t.kind == TaskKind::Cpu <==> kinds[i].drawn())
                &&& durations[i].range() == duration_range_ms(config, t.kind)
                &&& t.duration == durations[i].drawn() * NANOS_PER_MILLI
                &&& match arrival_range_ms(config, i) {
                    None => t.created_at == start_time,
                    Some(max) => {
                        &&& arrivals[i]->0.range() == (0u64, max)
                        &&& t.created_at == start_time + arrivals[i]->0.drawn() * NANOS_PER_MILLI
                    },
                }
            },
{
    broadcast use vstd::seq_lib::group_to_multiset_ensures;

    let drawn = drawn_tasks(draws, start_time);
    assert forall|j: int| 0 <= j < tasks.len() implies {
        let t = #[trigger] tasks[j];
        let i = t.id as int;
        &&& 0 <= i < draws.len()
        &&& kinds[i].ratio() == config.cpu_ratio
        &&& (t.kind == TaskKind::Cpu <==> kinds[i].drawn())
        &&& durations[i].range() == duration_range_ms(config, t.kind)
        &&& t.duration == durations[i].drawn() * NANOS_PER_MILLI
        &&& match arrival_range_ms(config, i) {
            None => t.created_at == start_time,
            Some(max) => {
                &&& arrivals[i]->0.range() == (0u64, max)
                &&& t.created_at == start_time + arrivals[i]->0.drawn() * NANOS_PER_MILLI
            },
        }
    } by {
        assert(tasks.contains(tasks[j]));
        assert(drawn.to_multiset().count(tasks[j]) > 0);
        assert(drawn.contains(tasks[j]));
        let i = choose|i: int| 0 <= i < drawn.len() && drawn[i] == tasks[j];
        assert(drawn[i] == drawn_task(i, draws[i], start_time));
        assert(start_fits(draws, start_time, i));
        assert(tasks[j].id as int == i);
        assert(kinds[i].ratio() == config.cpu_ratio);
        assert(durations[i].drawn() == draws[i].duration_ms);
        assert(arrivals[i] == arrivals[i]);
    }
}

/// Tasks in order of arrival are determined by which tasks they are: two
/// orderings of the same tasks, both in order of arrival, are the same.
pub proof fn lemma_arrival_order_unique(a: Seq<Task>, b: Seq<Task>)
    requires
        in_arrival_order(a),
        in_arrival_order(b),
        a.to_multiset() == b.to_multiset(),
    ensures
        a == b,
    decreases a.len(),
{
    if a.len() == 0 {
        assert(b.to_multiset().len() == b.len());
        assert(b.len() == 0);
        assert(a =~= b);
    } else {
        assert(a.to_multiset().len() == a.len());
        assert(b.to_multiset().len() == b.len());
        assert(b.len() == a.len());
        assert(a.contains(a[0]));
        assert(b.to_multiset().count(a[0]) > 0);
        assert(b.contains(a[0]));
        let i = choose|i: int| 0 <= i < b.len() && b[i] == a[0];
        assert(b.contains(b[0]));
        assert(a.to_multiset().count(b[0]) > 0);
        assert(a.contains(b[0]));
        let j = choose|j: int| 0 <= j < a.len() && a[j] == b[0];
        if i != 0 {
            assert(arrives_before(b[0], b[i]));
            if j != 0 {
                assert(arrives_before(a[0], a[j]));
            }
            assert(false);
        }
        assert(a[0] == b[0]);
        assert(a.remove(0) =~= a.drop_first());
        assert(b.remove(0) =~= b.drop_first());
        assert(a.drop_first().to_multiset() == b.drop_first().to_multiset());
        assert(in_arrival_order(a.drop_first()));
        assert(in_arrival_order(b.drop_first()));
        lemma_arrival_order_unique(a.drop_first(), b.drop_first());
        assert forall|k: int| 0 <= k < a.len() implies a[k] == b[k] by {
            if k > 0 {
                assert(a[k] == a.drop_first()[k - 1]);
                assert(b[k] == b.drop_first()[k - 1]);
            }
        }
        assert(a =~= b);
    }
}

/// `t` moved from a run that started at `from` to one that started at `to`:
/// the same task, arriving as long after `to` as it arrived after `from`.
pub open spec fn shifted(t: Task, from: u128, to: u128) -> Task {
    Task { created_at: (t.created_at - from + to) as u128, ..t }
}

/// Every task of `s` moved from a run started at `from` to one started at `to`.
pub open spec fn shift_all(s: Seq<Task>, from: u128, to: u128) -> Seq<Task> {
    Seq::new(s.len(), |i: int| shifted(s[i], from, to))
}

proof fn lemma_shift_all_multiset(a: Seq<Task>, b: Seq<Task>, from: u128, to: u128)
    requires
        a.to_multiset() == b.to_multiset(),
    ensures
        shift_all(a, from, to).to_multiset() == shift_all(b, from, to).to_multiset(),
    decreases a.len(),
{
    broadcast use vstd::multiset::group_multiset_axioms;

    assert(a.to_multiset().len() == a.len());
    assert(b.to_multiset().len() == b.len());
    if a.len() == 0 {
        assert(shift_all(a, from, to) =~= Seq::<Task>::empty());
        assert(shift_all(b, from, to) =~= Seq::<Task>::empty());
    } else {
        let x = a.last();
        assert(a.contains(x)) by {
            assert(a[a.len() - 1] == x);
        }
        assert(b.to_multiset().count(x) > 0);
        assert(b.contains(x));
        let i = choose|i: int| 0 <= i < b.len() && b[i] == x;
        assert(a.remove(a.len() - 1) =~= a.drop_last());
        assert(a.drop_last().to_multiset() == b.remove(i).to_multiset());
        lemma_shift_all_multiset(a.drop_last(), b.remove(i), from, to);
        let sx = shifted(x, from, to);
        let sa = shift_all(a, from, to);
        let sb = shift_all(b, from, to);
        assert(sa =~= shift_all(a.drop_last(), from, to).push(sx));
        assert(sb.remove(i) =~= shift_all(b.remove(i), from, to));
        assert(sb[i] == sx);
        assert(sb.contains(sx));
        assert(sb.to_multiset().count(sx) > 0);
        assert(sb.remove(i).to_multiset() == sb.to_multiset().remove(sx));
        assert(sa.to_multiset() =~= sb.to_multiset());
    }
}

/// Runs are reproducible whenever they start: the same draws, built at
/// start instant `t1` and at `t2`, give the same tasks in the same order,
/// with the same ids, kinds and durations, each arriving as long after its
/// run's start as in the other.
pub proof fn lemma_build_tasks_shift(
    draws: Seq<TaskDraw>,
    t1: u128,
    t2: u128,
    tasks1: Seq<Task>,
    tasks2: Seq<Task>,
)
    requires
        draws_fit(draws, t1),
        draws_fit(draws, t2),
        built_from(tasks1, draws, t1),
        built_from(tasks2, draws, t2),
    ensures
        tasks2.len() == tasks1.len(),
        forall|i: int| 0 <= i < tasks1.len() ==> #[trigger] tasks2[i] == shifted(tasks1[i], t1, t2),
        forall|i: int|
            0 <= i < tasks1.len() ==> tasks1[i].created_at - t1 == (#[trigger] tasks2[i]).created_at - t2,
{
    let d1 = drawn_tasks(draws, t1);
    let d2 = drawn_tasks(draws, t2);
    assert(d2 =~= shift_all(d1, t1, t2)) by {
        assert forall|i: int| 0 <= i < d2.len() implies d2[i] == shift_all(d1, t1, t2)[i] by {
            assert(start_fits(draws, t1, i));
            assert(start_fits(draws, t2, i));
        }
    }
    lemma_shift_all_multiset(tasks1, d1, t1, t2);
    let s = shift_all(tasks1, t1, t2);
    assert forall|i: int| 0 <= i < tasks1.len() implies tasks1[i].created_at >= t1 && tasks1[i].created_at
        - t1 + t2 <= u128::MAX by {
        assert(tasks1.contains(tasks1[i]));
        assert(d1.to_multiset().count(tasks1[i]) > 0);
        assert(d1.contains(tasks1[i]));
        let j = choose|j: int| 0 <= j < d1.len() && d1[j] == tasks1[i];
        assert(start_fits(draws, t1, j));
        assert(start_fits(draws, t2, j));
    }
    assert(in_arrival_order(s)) by {
        assert forall|i: int, j: int| 0 <= i < j < s.len() implies arrives_before(#[trigger] s[i], #[trigger] s[j]) by {
            assert(arrives_before(tasks1[i], tasks1[j]));
        }
    }
    lemma_arrival_order_unique(s, tasks2);
}

/// Draw `i`'s arrival fits after `start_time`.
spec fn start_fits(draws: Seq<TaskDraw>, start_time: u128, i: int) -> bool {
    0 <= i < draws.len() ==> start_time + draws[i].arrival_offset_ms * NANOS_PER_MILLI <= u128::MAX
}

/// Sorts tasks whose ids increase into order of arrival. Among tasks that
/// arrive at the same instant the earlier stays first, so the result is what
/// a stable sort by arrival instant gives.
fn sort_by_arrival(tasks: Vec<Task>) -> (sorted: Vec<Task>)
    requires
        forall|i: int, j: int| 0 <= i < j < tasks.len() ==> (#[trigger] tasks@[i]).id < (#[trigger] tasks@[j]).id,
    ensures
        sorted@.to_multiset() == tasks@.to_multiset(),
        sorted.len() == tasks.len(),
        in_arrival_order(sorted@),
        forall|i: int| 0 <= i < tasks.len() ==> sorted@.contains(#[trigger] tasks@[i]),
        forall|j: int| 0 <= j < sorted.len() ==> tasks@.contains(#[trigger] sorted@[j]),
{
    let n = tasks.len();
    let mut sorted: Vec<Task> = Vec::with_capacity(n);
    for k in 0..n
        invariant
            n == tasks.len(),
            forall|i: int, j: int| 0 <= i < j < tasks.len() ==> (#[trigger] tasks@[i]).id < (#[trigger] tasks@[j]).id,
            sorted@.to_multiset() == tasks@.take(k as int).to_multiset(),
            sorted.len() == k,
            in_arrival_order(sorted@),
    {
        let t = tasks[k];
        let mut p: usize = 0;
        while p < sorted.len() && sorted[p].created_at <= t.created_at
            invariant
                p <= sorted.len(),
                forall|q: int| 0 <= q < p ==> (#[trigger] sorted@[q]).created_at <= t.created_at,
            decreases sorted.len() - p,
        {
            p = p + 1;
        }
        proof {
            assert forall|q: int| 0 <= q < sorted.len() implies (#[trigger] sorted@[q]).id < t.id by {
                assert(sorted@.contains(sorted@[q]));
                assert(sorted@.to_multiset().count(sorted@[q]) > 0);
                assert(tasks@.take(k as int).contains(sorted@[q]));
                let i = choose|i: int| 0 <= i < k && tasks@.take(k as int)[i] == sorted@[q];
                assert(tasks@[i] == sorted@[q]);
            }
            assert(tasks@.take(k + 1) =~= tasks@.take(k as int).push(t));
        }
        let ghost before = sorted@;
        sorted.insert(p, t);
        proof {
            assert forall|i: int, j: int| 0 <= i < j < sorted.len() implies arrives_before(
                #[trigger] sorted@[i],
                #[trigger] sorted@[j],
            ) by {
                if j < p {
                    assert(sorted@[i] == before[i] && sorted@[j] == before[j]);
                } else if j == p {
                    assert(sorted@[i] == before[i]);
                    assert(before[i].created_at <= t.created_at);
                    assert(before[i].id < t.id);
                } else if i == p {
                    assert(sorted@[j] == before[j - 1]);
                    assert(before[p as int].created_at > t.created_at);
                    if j - 1 > p {
                        assert(arrives_before(before[p as int], before[j - 1]));
                    }
                } else if i < p {
                    assert(sorted@[i] == before[i] && sorted@[j] == before[j - 1]);
                } else {
                    assert(sorted@[i] == before[i - 1] && sorted@[j] == before[j - 1]);
                }
            }
        }
    }
    proof {
        assert(tasks@.take(n as int) =~= tasks@);
        assert forall|i: int| 0 <= i < tasks.len() implies sorted@.contains(#[trigger] tasks@[i]) by {
            assert(tasks@.contains(tasks@[i]));
            assert(sorted@.to_multiset().count(tasks@[i]) > 0);
            assert(sorted@.contains(tasks@[i]));
        }
        assert forall|j: int| 0 <= j < sorted.len() implies tasks@.contains(#[trigger] sorted@[j]) by {
            assert(sorted@.contains(sorted@[j]));
            assert(tasks@.to_multiset().count(sorted@[j]) > 0);
            assert(tasks@.contains(sorted@[j]));
        }
    }
    sorted
}

} // verus!
