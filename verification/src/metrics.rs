use vstd::prelude::*;
use crate::task::{Task, TaskKind, elapsed_between, saturating_elapsed};
use crate::history::{CompletionRecord, Measure, sum_of, max_of, wait_of, lemma_sum_of_push, lemma_busy_of_unseen_worker, lemma_order_irrelevant, lemma_max_of_attained};

verus! {

/// The largest duration, in nanoseconds, that a duration can hold
/// (`u64::MAX` seconds and 999 999 999 nanoseconds); sums of durations past
/// it overflow.
pub const MAX_DURATION_NANOS: u128 = 18_446_744_073_709_551_615_999_999_999;

/// The least time between two monitor samples: 100 ms.
pub const MONITOR_INTERVAL_NANOS: u128 = 100_000_000;

/// The divisor that an average uses: counts are taken modulo 2^32.
pub open spec fn count_divisor(count: usize) -> nat {
    (count as nat) % 0x1_0000_0000
}

/// A count by which an average can be taken: zero (no average), or one
/// whose divisor is not zero.
pub open spec fn divisor_ok(count: usize) -> bool {
    count == 0 || count_divisor(count) != 0
}

/// The average of `total` over `count` events, rounded down; zero when there
/// were none.
pub open spec fn average(total: u128, count: usize) -> u128 {
    if count > 0 {
        (total as nat / count_divisor(count)) as u128
    } else {
        0
    }
}

/// The sum of a sequence of durations.
pub open spec fn sum_u128(s: Seq<u128>) -> int
    decreases s.len(),
{
    if s.len() == 0 {
        0
    } else {
        sum_u128(s.drop_last()) + s.last()
    }
}

/// The sum of a sequence of counts.
pub open spec fn sum_usize(s: Seq<usize>) -> int
    decreases s.len(),
{
    if s.len() == 0 {
        0
    } else {
        sum_usize(s.drop_last()) + s.last()
    }
}

/// `s` extended with zeros so that it has an entry at `index`.
pub open spec fn padded_to(s: Seq<u128>, index: usize) -> Seq<u128> {
    if index < s.len() {
        s
    } else {
        s + Seq::new((index + 1 - s.len()) as nat, |k: int| 0u128)
    }
}

fn pad_to_worker(v: &mut Vec<u128>, worker_id: usize)
    requires
        worker_id < usize::MAX,
    ensures
        final(v)@ == padded_to(old(v)@, worker_id),
{
    let ghost padded = padded_to(v@, worker_id);
    let ghost old_len = v@.len();
    while v.len() <= worker_id
        invariant
            worker_id < usize::MAX,
            padded == padded_to(old(v)@, worker_id),
            old_len == old(v)@.len(),
            old_len <= v@.len(),
            v@.len() <= padded.len(),
            v@ =~= padded.subrange(0, v@.len() as int),
        decreases worker_id + 1 - v.len(),
    {
        v.push(0);
    }
    assert(v@ =~= padded);
}

/// A snapshot taken by the monitor: when (nanoseconds since the metrics
/// started), how many tasks were queued, how many workers were busy, and how
/// many tasks had completed.
#[derive(Clone, Copy, Debug)]
pub struct MonitorSample {
    pub timestamp: u128,
    pub queue_length: usize,
    pub active_workers: usize,
    pub completed_tasks: usize,
}

/// The abstract state of the metrics. Durations are in nanoseconds.
pub struct MetricsView {
    pub completed_tasks: usize,
    pub cpu_completed: usize,
    pub io_completed: usize,
    pub total_wait_time: u128,
    pub total_wait_time_io: u128,
    pub total_wait_time_cpu: u128,
    pub total_turnaround_time: u128,
    pub max_wait_time: u128,
    pub queue_length_samples: Seq<usize>,
    pub worker_busy_time: Seq<u128>,
    pub active_workers_samples: Seq<usize>,
    pub monitor_samples: Seq<MonitorSample>,
    pub start_time: u128,
    /// Every completion recorded so far, in the order recorded.
    pub completions: Seq<CompletionRecord>,
}

impl MetricsView {
    /// The invariant the metrics keep: every count, total and maximum is
    /// that of the recorded completions; completions split into CPU and I/O,
    /// and so do the waits; every total fits in a duration; the longest wait
    /// bounds the average wait; the queue and worker samples are taken in
    /// pairs, and the first of them is a monitor sample; monitor samples lie
    /// `MONITOR_INTERVAL_NANOS` apart per step and their completion counts
    /// never decrease.
    pub open spec fn wf(self) -> bool {
        &&& self.follows_history()
        &&& self.completed_tasks == self.cpu_completed + self.io_completed
        &&& self.total_wait_time == self.total_wait_time_cpu + self.total_wait_time_io
        &&& self.total_wait_time <= MAX_DURATION_NANOS
        &&& self.total_turnaround_time <= MAX_DURATION_NANOS
        &&& forall|i: int|
            0 <= i < self.worker_busy_time.len() ==> #[trigger] self.worker_busy_time[i]
                <= MAX_DURATION_NANOS
        &&& self.total_wait_time <= self.completed_tasks * self.max_wait_time
        &&& self.queue_length_samples.len() == self.active_workers_samples.len()
        &&& self.monitor_samples.len() <= self.queue_length_samples.len()
        &&& (self.queue_length_samples.len() > 0 ==> self.monitor_samples.len() > 0)
        &&& forall|i: int, j: int|
            0 <= i < j < self.monitor_samples.len() ==> #[trigger] self.monitor_samples[i].timestamp + (j
                - i) * MONITOR_INTERVAL_NANOS <= #[trigger] self.monitor_samples[j].timestamp
        &&& forall|i: int, j: int|
            0 <= i < j < self.monitor_samples.len() ==> (#[trigger] self.monitor_samples[i]).completed_tasks
                <= (#[trigger] self.monitor_samples[j]).completed_tasks
        &&& forall|i: int|
            0 <= i < self.monitor_samples.len() ==> (#[trigger] self.monitor_samples[i]).completed_tasks
                <= self.completed_tasks
    }

    /// The counts, totals, longest wait and busy times are those of the
    /// recorded completions.
    pub open spec fn follows_history(self) -> bool {
        let h = self.completions;
        &&& self.completed_tasks == h.len()
        &&& self.cpu_completed == sum_of(h, Measure::CpuCount)
        &&& self.io_completed == sum_of(h, Measure::IoCount)
        &&& self.total_wait_time == sum_of(h, Measure::Wait)
        &&& self.total_wait_time_cpu == sum_of(h, Measure::CpuWait)
        &&& self.total_wait_time_io == sum_of(h, Measure::IoWait)
        &&& self.total_turnaround_time == sum_of(h, Measure::Turnaround)
        &&& self.max_wait_time == max_of(h, Measure::Wait)
        &&& self.worker_busy_time.len() == max_of(h, Measure::WorkerSlots)
        &&& forall|w: int|
            0 <= w < self.worker_busy_time.len() ==> #[trigger] self.worker_busy_time[w] == sum_of(
                h,
                Measure::Busy(w),
            )
    }

    /// The busy time recorded for a worker; zero for one never seen.
    pub open spec fn busy_time_of(self, worker_id: usize) -> u128 {
        if worker_id < self.worker_busy_time.len() {
            self.worker_busy_time[worker_id as int]
        } else {
            0
        }
    }

    /// Whether recording `task` as completed by `worker_id` after
    /// `execution_time` keeps every count and every total in range.
    pub open spec fn completion_fits(self, task: Task, worker_id: usize, execution_time: u128) -> bool {
        &&& self.completed_tasks < usize::MAX
        &&& worker_id < usize::MAX
        &&& (task.spec_wait_time() matches Some(w) ==> self.total_wait_time + w
            <= MAX_DURATION_NANOS)
        &&& (task.spec_turnaround_time() matches Some(t) ==> self.total_turnaround_time + t
            <= MAX_DURATION_NANOS)
        &&& self.busy_time_of(worker_id) + execution_time <= MAX_DURATION_NANOS
    }

    /// The busy times after worker `worker_id` ran for `execution_time`: the
    /// list grows with zeros to reach the worker, whose entry increases.
    pub open spec fn busy_after(self, worker_id: usize, execution_time: u128) -> Seq<u128> {
        padded_to(self.worker_busy_time, worker_id).update(worker_id as int, (self.busy_time_of(worker_id) + execution_time) as u128)
    }

    /// The metrics after `task` completed on worker `worker_id`, having run
    /// for `execution_time`.
    pub open spec fn after_completion(self, task: Task, worker_id: usize, execution_time: u128) -> MetricsView {
        let wait = task.spec_wait_time();
        let turnaround = task.spec_turnaround_time();
        let cpu = task.kind == TaskKind::Cpu;
        MetricsView {
            completed_tasks: (self.completed_tasks + 1) as usize,
            cpu_completed: if cpu { (self.cpu_completed + 1) as usize } else { self.cpu_completed },
            io_completed: if cpu { self.io_completed } else { (self.io_completed + 1) as usize },
            total_wait_time: match wait {
                Some(w) => (self.total_wait_time + w) as u128,
                None => self.total_wait_time,
            },
            total_wait_time_cpu: match wait {
                Some(w) => if cpu { (self.total_wait_time_cpu + w) as u128 } else { self.total_wait_time_cpu },
                None => self.total_wait_time_cpu,
            },
            total_wait_time_io: match wait {
                Some(w) => if cpu { self.total_wait_time_io } else { (self.total_wait_time_io + w) as u128 },
                None => self.total_wait_time_io,
            },
            max_wait_time: match wait {
                Some(w) => if w > self.max_wait_time { w } else { self.max_wait_time },
                None => self.max_wait_time,
            },
            total_turnaround_time: match turnaround {
                Some(t) => (self.total_turnaround_time + t) as u128,
                None => self.total_turnaround_time,
            },
            worker_busy_time: self.busy_after(worker_id, execution_time),
            completions: self.completions.push(CompletionRecord { task, worker_id, execution_time }),
            ..self
        }
    }

    /// The time since the metrics started, as seen at instant `now`.
    pub open spec fn elapsed_at(self, now: u128) -> u128 {
        elapsed_between(now, self.start_time)
    }

    /// Whether a queue sample taken at `now` may follow the monitor samples:
    /// time does not run backwards past the last of them.
    pub open spec fn sample_time_ok(self, now: u128) -> bool {
        self.monitor_samples.len() == 0 || self.monitor_samples.last().timestamp <= self.elapsed_at(
            now,
        )
    }

    /// Whether a queue sample taken at `now` also becomes a monitor sample:
    /// the first one does, and then one at least `MONITOR_INTERVAL_NANOS` after
    /// the last.
    pub open spec fn monitor_due(self, now: u128) -> bool {
        self.monitor_samples.len() == 0 || self.elapsed_at(now) - self.monitor_samples.last().timestamp
            >= MONITOR_INTERVAL_NANOS
    }
}

/// Completion statistics and queue samples of one simulation run.
pub struct Metrics {
    completed_tasks: usize,
    cpu_completed: usize,
    io_completed: usize,
    total_wait_time: u128,
    total_wait_time_io: u128,
    total_wait_time_cpu: u128,
    total_turnaround_time: u128,
    max_wait_time: u128,
    queue_length_samples: Vec<usize>,
    worker_busy_time: Vec<u128>,
    active_workers_samples: Vec<usize>,
    monitor_samples: Vec<MonitorSample>,
    start_time: u128,
    completions: Ghost<Seq<CompletionRecord>>,
}

impl View for Metrics {
    type V = MetricsView;

    closed spec fn view(&self) -> MetricsView {
        MetricsView {
            completed_tasks: self.completed_tasks,
            cpu_completed: self.cpu_completed,
            io_completed: self.io_completed,
            total_wait_time: self.total_wait_time,
            total_wait_time_io: self.total_wait_time_io,
            total_wait_time_cpu: self.total_wait_time_cpu,
            total_turnaround_time: self.total_turnaround_time,
            max_wait_time: self.max_wait_time,
            queue_length_samples: self.queue_length_samples@,
            worker_busy_time: self.worker_busy_time@,
            active_workers_samples: self.active_workers_samples@,
            monitor_samples: self.monitor_samples@,
            start_time: self.start_time,
            completions: self.completions@,
        }
    }
}

proof fn lemma_wait_bound_step(total: int, completed: int, max: int, w: int)
    by (nonlinear_arith)
    requires
        0 <= total <= completed * max,
        0 <= completed,
        0 <= max,
        0 <= w,
    ensures
        total + w <= (completed + 1) * (if w > max { w } else { max }),
        total <= (completed + 1) * max,
{
}

impl Metrics {
    /// Empty metrics for a run that starts at instant `start_time`.
    pub fn new(start_time: u128) -> (m: Self)
        ensures
            m@.wf(),
            m@.completed_tasks == 0,
            m@.cpu_completed == 0,
            m@.io_completed == 0,
            m@.total_wait_time == 0,
            m@.total_wait_time_io == 0,
            m@.total_wait_time_cpu == 0,
            m@.total_turnaround_time == 0,
            m@.max_wait_time == 0,
            m@.queue_length_samples == Seq::<usize>::empty(),
            m@.worker_busy_time == Seq::<u128>::empty(),
            m@.active_workers_samples == Seq::<usize>::empty(),
            m@.monitor_samples == Seq::<MonitorSample>::empty(),
            m@.start_time == start_time,
            m@.completions == Seq::<CompletionRecord>::empty(),
    {
        Metrics {
            completed_tasks: 0,
            cpu_completed: 0,
            io_completed: 0,
            total_wait_time: 0,
            total_wait_time_io: 0,
            total_wait_time_cpu: 0,
            total_turnaround_time: 0,
            max_wait_time: 0,
            queue_length_samples: Vec::new(),
            worker_busy_time: Vec::new(),
            active_workers_samples: Vec::new(),
            monitor_samples: Vec::new(),
            start_time,
            completions: Ghost(Seq::empty()),
        }
    }

    /// Whether `record_completion` can record this completion without a
    /// count or a total running out of range.
    pub fn completion_fits(&self, task: &Task, worker_id: usize, execution_time: u128) -> (r: bool)
        requires
            self@.wf(),
        ensures
            r == self@.completion_fits(*task, worker_id, execution_time),
    {
        if self.completed_tasks == usize::MAX || worker_id == usize::MAX {
            return false;
        }
        match task.wait_time() {
            Some(w) => {
                if w > MAX_DURATION_NANOS || self.total_wait_time > MAX_DURATION_NANOS - w {
                    return false;
                }
            },
            None => {},
        }
        match task.turnaround_time() {
            Some(t) => {
                if t > MAX_DURATION_NANOS || self.total_turnaround_time > MAX_DURATION_NANOS - t {
                    return false;
                }
            },
            None => {},
        }
        let busy: u128 = if worker_id < self.worker_busy_time.len() {
            self.worker_busy_time[worker_id]
        } else {
            0
        };
        execution_time <= MAX_DURATION_NANOS && busy <= MAX_DURATION_NANOS - execution_time
    }

    /// Records that `task` completed on worker `worker_id` after running for
    /// `execution_time`: counts it by kind, adds its wait and turnaround
    /// times, raises the longest wait, and adds to the worker's busy time.
    pub fn record_completion(&mut self, task: &Task, worker_id: usize, execution_time: u128)
        requires
            old(self)@.wf(),
            old(self)@.completion_fits(*task, worker_id, execution_time),
        ensures
            final(self)@.wf(),
            final(self)@ == old(self)@.after_completion(*task, worker_id, execution_time),
    {
        proof {
            if let Some(w) = task.spec_wait_time() {
                lemma_wait_bound_step(
                    self.total_wait_time as int,
                    self.completed_tasks as int,
                    self.max_wait_time as int,
                    w as int,
                );
            } else {
                lemma_wait_bound_step(
                    self.total_wait_time as int,
                    self.completed_tasks as int,
                    self.max_wait_time as int,
                    0,
                );
            }
        }
        self.completed_tasks = self.completed_tasks + 1;
        match task.kind {
            TaskKind::Cpu => self.cpu_completed = self.cpu_completed + 1,
            TaskKind::Io => self.io_completed = self.io_completed + 1,
        }
        if let Some(wait) = task.wait_time() {
            self.total_wait_time = self.total_wait_time + wait;
            match task.kind {
                TaskKind::Cpu => self.total_wait_time_cpu = self.total_wait_time_cpu + wait,
                TaskKind::Io => self.total_wait_time_io = self.total_wait_time_io + wait,
            }
            if wait > self.max_wait_time {
                self.max_wait_time = wait;
            }
        }
        if let Some(turnaround) = task.turnaround_time() {
            self.total_turnaround_time = self.total_turnaround_time + turnaround;
        }
        pad_to_worker(&mut self.worker_busy_time, worker_id);
        let busy = self.worker_busy_time[worker_id];
        self.worker_busy_time.set(worker_id, busy + execution_time);
        let ghost record = CompletionRecord { task: *task, worker_id, execution_time };
        self.completions = Ghost(self.completions@.push(record));
        assert(self@.worker_busy_time =~= old(self)@.busy_after(worker_id, execution_time));
        proof {
            let h = old(self)@.completions;
            lemma_sum_of_push(h, record, Measure::CpuCount);
            lemma_sum_of_push(h, record, Measure::IoCount);
            lemma_sum_of_push(h, record, Measure::Wait);
            lemma_sum_of_push(h, record, Measure::CpuWait);
            lemma_sum_of_push(h, record, Measure::IoWait);
            lemma_sum_of_push(h, record, Measure::Turnaround);
            lemma_sum_of_push(h, record, Measure::WorkerSlots);
            let old_len = old(self)@.worker_busy_time.len();
            assert forall|w: int| 0 <= w < self@.worker_busy_time.len() implies #[trigger] self@.worker_busy_time[w]
                == sum_of(self@.completions, Measure::Busy(w)) by {
                lemma_sum_of_push(h, record, Measure::Busy(w));
                if w >= old_len {
                    lemma_busy_of_unseen_worker(h, w);
                }
            }
        }
    }

    /// Records one scheduling round seen at instant `now`: `len` tasks were
    /// queued and `active_workers` workers were busy. The first round, and
    /// then every round at least `MONITOR_INTERVAL_NANOS` after the last
    /// monitor sample, also becomes a monitor sample.
    pub fn record_queue_length(&mut self, len: usize, active_workers: usize, now: u128)
        requires
            old(self)@.wf(),
            old(self)@.sample_time_ok(now),
        ensures
            final(self)@.wf(),
            final(self)@.queue_length_samples == old(self)@.queue_length_samples.push(len),
            final(self)@.active_workers_samples == old(self)@.active_workers_samples.push(active_workers),
            final(self)@.monitor_samples == if old(self)@.monitor_due(now) {
                old(self)@.monitor_samples.push(
                    MonitorSample {
                        timestamp: old(self)@.elapsed_at(now),
                        queue_length: len,
                        active_workers,
                        completed_tasks: old(self)@.completed_tasks,
                    },
                )
            } else {
                old(self)@.monitor_samples
            },
            final(self)@ == (MetricsView {
                queue_length_samples: final(self)@.queue_length_samples,
                active_workers_samples: final(self)@.active_workers_samples,
                monitor_samples: final(self)@.monitor_samples,
                ..old(self)@
            }),
    {
        self.queue_length_samples.push(len);
        self.active_workers_samples.push(active_workers);
        let now_elapsed = saturating_elapsed(now, self.start_time);
        let completed = self.completed_tasks;
        let n = self.monitor_samples.len();
        let due = if n == 0 {
            true
        } else {
            now_elapsed - self.monitor_samples[n - 1].timestamp >= MONITOR_INTERVAL_NANOS
        };
        if due {
            self.monitor_samples.push(
                MonitorSample {
                    timestamp: now_elapsed,
                    queue_length: len,
                    active_workers,
                    completed_tasks: completed,
                },
            );
            assert forall|i: int, j: int|
                0 <= i < j < self.monitor_samples@.len() implies #[trigger] self.monitor_samples@[i].timestamp
                    + MONITOR_INTERVAL_NANOS <= #[trigger] self.monitor_samples@[j].timestamp by {
                if j == n && i < n - 1 {
                    assert(old(self)@.monitor_samples[i].timestamp + MONITOR_INTERVAL_NANOS
                        <= old(self)@.monitor_samples[n - 1].timestamp);
                }
            }
        }
    }

    /// The number of completed tasks.
    pub fn get_completed_count(&self) -> (r: usize)
        ensures
            r == self@.completed_tasks,
    {
        self.completed_tasks
    }

    /// The time since the metrics started, as seen at instant `now`.
    pub fn get_makespan(&self, now: u128) -> (r: u128)
        ensures
            r == self@.elapsed_at(now),
    {
        saturating_elapsed(now, self.start_time)
    }

    /// The average wait over all completed tasks (zero before any completed).
    pub fn get_avg_wait_time(&self) -> (r: u128)
        requires
            divisor_ok(self@.completed_tasks),
        ensures
            r == average(self@.total_wait_time, self@.completed_tasks),
    {
        average_of(self.total_wait_time, self.completed_tasks)
    }

    /// The average wait over completed I/O tasks (zero before any completed).
    pub fn get_avg_wait_time_io(&self) -> (r: u128)
        requires
            divisor_ok(self@.io_completed),
        ensures
            r == average(self@.total_wait_time_io, self@.io_completed),
    {
        average_of(self.total_wait_time_io, self.io_completed)
    }

    /// The average wait over completed CPU tasks (zero before any completed).
    pub fn get_avg_wait_time_cpu(&self) -> (r: u128)
        requires
            divisor_ok(self@.cpu_completed),
        ensures
            r == average(self@.total_wait_time_cpu, self@.cpu_completed),
    {
        average_of(self.total_wait_time_cpu, self.cpu_completed)
    }

    /// The average turnaround over all completed tasks (zero before any completed).
    pub fn get_avg_turnaround_time(&self) -> (r: u128)
        requires
            divisor_ok(self@.completed_tasks),
        ensures
            r == average(self@.total_turnaround_time, self@.completed_tasks),
    {
        average_of(self.total_turnaround_time, self.completed_tasks)
    }

    /// The number of completed CPU tasks.
    pub fn get_cpu_completed_count(&self) -> (r: usize)
        ensures
            r == self@.cpu_completed,
    {
        self.cpu_completed
    }

    /// The number of completed I/O tasks.
    pub fn get_io_completed_count(&self) -> (r: usize)
        ensures
            r == self@.io_completed,
    {
        self.io_completed
    }

    /// Whether a queue sample may be taken at instant `now`: the clock has
    /// not run back before the last monitor sample.
    pub fn sample_time_ok(&self, now: u128) -> (r: bool)
        ensures
            r == self@.sample_time_ok(now),
    {
        let n = self.monitor_samples.len();
        n == 0 || self.monitor_samples[n - 1].timestamp <= saturating_elapsed(now, self.start_time)
    }

    /// The longest wait of any completed task.
    pub fn get_max_wait_time(&self) -> (r: u128)
        ensures
            r == self@.max_wait_time,
    {
        self.max_wait_time
    }

    /// The number of monitor samples taken.
    pub fn get_monitor_sample_count(&self) -> (r: usize)
        ensures
            r == self@.monitor_samples.len(),
    {
        self.monitor_samples.len()
    }

    /// The monitor samples, oldest first.
    pub fn get_monitor_samples(&self) -> (r: &Vec<MonitorSample>)
        ensures
            r@ == self@.monitor_samples,
    {
        &self.monitor_samples
    }

    /// The busy time of all workers together, or `None` when it exceeds the
    /// largest duration.
    pub fn get_total_busy_time(&self) -> (r: Option<u128>)
        ensures
            r == if sum_u128(self@.worker_busy_time) <= MAX_DURATION_NANOS {
                Some(sum_u128(self@.worker_busy_time) as u128)
            } else {
                None
            },
    {
        let n = self.worker_busy_time.len();
        let mut total: u128 = 0;
        let mut i: usize = 0;
        while i < n
            invariant
                n == self.worker_busy_time@.len(),
                i <= n,
                total == sum_u128(self.worker_busy_time@.take(i as int)),
                total <= MAX_DURATION_NANOS,
            decreases n - i,
        {
            proof {
                lemma_sum_u128_take_step(self.worker_busy_time@, i as int);
                lemma_sum_u128_prefix_le(self.worker_busy_time@, (i + 1) as int);
            }
            let busy = self.worker_busy_time[i];
            if busy > MAX_DURATION_NANOS - total {
                return None;
            }
            total = total + busy;
            i = i + 1;
        }
        assert(self.worker_busy_time@.take(n as int) =~= self.worker_busy_time@);
        Some(total)
    }

    /// The busy time the workers could have had by instant `now`: the time
    /// since the metrics started times the number of workers seen (that
    /// number taken modulo 2^32); `None` when it exceeds the largest duration.
    pub fn get_busy_capacity(&self, now: u128) -> (r: Option<u128>)
        ensures
            r == if self@.elapsed_at(now) * count_divisor(self@.worker_busy_time.len() as usize)
                <= MAX_DURATION_NANOS {
                Some((self@.elapsed_at(now) * count_divisor(self@.worker_busy_time.len() as usize)) as u128)
            } else {
                None
            },
    {
        let makespan = saturating_elapsed(now, self.start_time);
        let workers: u128 = (self.worker_busy_time.len() as u64 % 0x1_0000_0000u64) as u128;
        proof {
            assert(workers == count_divisor(self@.worker_busy_time.len() as usize));
        }
        if workers == 0 {
            return Some(0);
        }
        if makespan > MAX_DURATION_NANOS / workers {
            proof {
                assert(makespan * workers > MAX_DURATION_NANOS) by (nonlinear_arith)
                    requires
                        makespan > MAX_DURATION_NANOS / workers,
                        workers > 0,
                ;
            }
            return None;
        }
        proof {
            assert(makespan * workers <= MAX_DURATION_NANOS) by (nonlinear_arith)
                requires
                    makespan <= MAX_DURATION_NANOS / workers,
                    workers > 0,
            ;
        }
        Some(makespan * workers)
    }

    /// The number of busy workers summed over all queue samples, or `None`
    /// when the sum does not fit in a `usize`.
    pub fn get_active_workers_total(&self) -> (r: Option<usize>)
        ensures
            r == if sum_usize(self@.active_workers_samples) <= usize::MAX {
                Some(sum_usize(self@.active_workers_samples) as usize)
            } else {
                None
            },
    {
        let n = self.active_workers_samples.len();
        let mut total: usize = 0;
        let mut i: usize = 0;
        while i < n
            invariant
                n == self.active_workers_samples@.len(),
                i <= n,
                total == sum_usize(self.active_workers_samples@.take(i as int)),
            decreases n - i,
        {
            proof {
                lemma_sum_usize_take_step(self.active_workers_samples@, i as int);
                lemma_sum_usize_prefix_le(self.active_workers_samples@, (i + 1) as int);
            }
            let active = self.active_workers_samples[i];
            if active > usize::MAX - total {
                return None;
            }
            total = total + active;
            i = i + 1;
        }
        assert(self.active_workers_samples@.take(n as int) =~= self.active_workers_samples@);
        Some(total)
    }

    /// The number of queue samples taken.
    pub fn get_active_workers_sample_count(&self) -> (r: usize)
        ensures
            r == self@.active_workers_samples.len(),
    {
        self.active_workers_samples.len()
    }
}

/// Executable form of `average`.
fn average_of(total: u128, count: usize) -> (r: u128)
    requires
        divisor_ok(count),
    ensures
        r == average(total, count),
{
    if count > 0 {
        let divisor: u64 = count as u64 % 0x1_0000_0000u64;
        total / divisor as u128
    } else {
        0
    }
}

proof fn lemma_sum_u128_take_step(s: Seq<u128>, i: int)
    requires
        0 <= i < s.len(),
    ensures
        sum_u128(s.take(i + 1)) == sum_u128(s.take(i)) + s[i],
{
    assert(s.take(i + 1).drop_last() =~= s.take(i));
}

proof fn lemma_sum_u128_prefix_le(s: Seq<u128>, i: int)
    requires
        0 <= i <= s.len(),
    ensures
        sum_u128(s.take(i)) <= sum_u128(s),
    decreases s.len(),
{
    if i < s.len() {
        assert(s.take(i) =~= s.drop_last().take(i));
        lemma_sum_u128_prefix_le(s.drop_last(), i);
    } else {
        assert(s.take(i) =~= s);
    }
}

proof fn lemma_sum_usize_take_step(s: Seq<usize>, i: int)
    requires
        0 <= i < s.len(),
    ensures
        sum_usize(s.take(i + 1)) == sum_usize(s.take(i)) + s[i],
{
    assert(s.take(i + 1).drop_last() =~= s.take(i));
}

proof fn lemma_sum_usize_prefix_le(s: Seq<usize>, i: int)
    requires
        0 <= i <= s.len(),
    ensures
        sum_usize(s.take(i)) <= sum_usize(s),
    decreases s.len(),
{
    if i < s.len() {
        assert(s.take(i) =~= s.drop_last().take(i));
        lemma_sum_usize_prefix_le(s.drop_last(), i);
    } else {
        assert(s.take(i) =~= s);
    }
}

/// Every completion is a CPU completion or an I/O completion, and the total
/// wait is the CPU wait plus the I/O wait.
pub proof fn lemma_completions_split_by_kind(m: MetricsView)
    requires
        m.wf(),
    ensures
        m.completed_tasks == m.cpu_completed + m.io_completed,
        m.total_wait_time == m.total_wait_time_cpu + m.total_wait_time_io,
{
}

/// The average wait never exceeds the longest wait (while the number of
/// completions is below 2^32, where the average divides by it exactly).
pub proof fn lemma_avg_wait_within_max(m: MetricsView)
    requires
        m.wf(),
        m.completed_tasks <= u32::MAX,
    ensures
        average(m.total_wait_time, m.completed_tasks) <= m.max_wait_time,
{
    if m.completed_tasks > 0 {
        assert(count_divisor(m.completed_tasks) == m.completed_tasks);
        let t = m.total_wait_time as int;
        let c = m.completed_tasks as int;
        let x = m.max_wait_time as int;
        assert(t / c <= x) by (nonlinear_arith)
            requires
                0 <= t <= c * x,
                c > 0,
        {
            assert(c * x / c == x) by (nonlinear_arith) requires c > 0;
            vstd::arithmetic::div_mod::lemma_div_is_ordered(t, c * x, c);
        };
    }
}

/// Monitor samples are taken in time order, `j - i` intervals of
/// `MONITOR_INTERVAL_NANOS` apart at least, and the completion counts they
/// record never decrease.
pub proof fn lemma_monitor_samples_spaced(m: MetricsView, i: int, j: int)
    requires
        m.wf(),
        0 <= i < j < m.monitor_samples.len(),
    ensures
        m.monitor_samples[i].timestamp + (j - i) * MONITOR_INTERVAL_NANOS <= m.monitor_samples[j].timestamp,
        m.monitor_samples[i].completed_tasks <= m.monitor_samples[j].completed_tasks,
        m.monitor_samples[j].completed_tasks <= m.completed_tasks,
{
}

/// The monitor takes one sample per interval at most: at any instant `now`
/// that is not before the last sample, there are at most
/// `1 + elapsed / MONITOR_INTERVAL_NANOS` of them. There are no more monitor
/// samples than queue samples, and at least one once any queue sample was taken.
pub proof fn lemma_monitor_sample_count(m: MetricsView, now: u128)
    requires
        m.wf(),
        m.sample_time_ok(now),
    ensures
        m.monitor_samples.len() <= 1 + m.elapsed_at(now) / MONITOR_INTERVAL_NANOS,
        m.monitor_samples.len() <= m.queue_length_samples.len(),
        m.queue_length_samples.len() > 0 <==> m.monitor_samples.len() > 0,
{
    let n = m.monitor_samples.len();
    if n > 1 {
        let k = n - 1;
        assert(m.monitor_samples[0].timestamp + k * MONITOR_INTERVAL_NANOS <= m.monitor_samples[k].timestamp);
        let e = m.elapsed_at(now) as int;
        assert(k * MONITOR_INTERVAL_NANOS <= e);
        assert(k <= e / (MONITOR_INTERVAL_NANOS as int)) by (nonlinear_arith)
            requires
                k * 100_000_000 <= e,
                k >= 0,
        ;
    }
}

/// The metrics depend only on which completions were recorded, not on the
/// order in which they were recorded: metrics with the same completions have
/// the same counts, totals, longest wait and busy times.
pub proof fn lemma_record_order_irrelevant(a: MetricsView, b: MetricsView)
    requires
        a.wf(),
        b.wf(),
        a.completions.to_multiset() == b.completions.to_multiset(),
    ensures
        a.completed_tasks == b.completed_tasks,
        a.cpu_completed == b.cpu_completed,
        a.io_completed == b.io_completed,
        a.total_wait_time == b.total_wait_time,
        a.total_wait_time_cpu == b.total_wait_time_cpu,
        a.total_wait_time_io == b.total_wait_time_io,
        a.total_turnaround_time == b.total_turnaround_time,
        a.max_wait_time == b.max_wait_time,
        a.worker_busy_time == b.worker_busy_time,
        average(a.total_wait_time, a.completed_tasks) == average(b.total_wait_time, b.completed_tasks),
{
    broadcast use vstd::seq_lib::group_to_multiset_ensures;

    let ha = a.completions;
    let hb = b.completions;
    assert(ha.to_multiset().len() == ha.len());
    assert(hb.to_multiset().len() == hb.len());
    lemma_order_irrelevant(ha, hb, Measure::CpuCount);
    lemma_order_irrelevant(ha, hb, Measure::IoCount);
    lemma_order_irrelevant(ha, hb, Measure::Wait);
    lemma_order_irrelevant(ha, hb, Measure::CpuWait);
    lemma_order_irrelevant(ha, hb, Measure::IoWait);
    lemma_order_irrelevant(ha, hb, Measure::Turnaround);
    lemma_order_irrelevant(ha, hb, Measure::WorkerSlots);
    assert forall|w: int| 0 <= w < a.worker_busy_time.len() implies a.worker_busy_time[w] == b.worker_busy_time[w] by {
        lemma_order_irrelevant(ha, hb, Measure::Busy(w));
    }
    assert(a.worker_busy_time =~= b.worker_busy_time);
}

/// The longest wait is at least every recorded wait and, when not zero, is
/// the wait of some recorded completion.
pub proof fn lemma_max_wait_attained(m: MetricsView)
    requires
        m.wf(),
    ensures
        forall|i: int| 0 <= i < m.completions.len() ==> wait_of(#[trigger] m.completions[i]) <= m.max_wait_time,
        m.max_wait_time > 0 ==> exists|i: int|
            0 <= i < m.completions.len() && wait_of(#[trigger] m.completions[i]) == m.max_wait_time,
{
    lemma_max_of_attained(m.completions, Measure::Wait);
}

/// Recording a completion never lowers the longest wait. Afterwards it is
/// the maximum of its earlier value and the wait of the task; a task that
/// never started leaves it unchanged.
pub proof fn lemma_max_wait_never_decreases(
    m: MetricsView,
    task: Task,
    worker_id: usize,
    execution_time: u128,
)
    ensures
        m.after_completion(task, worker_id, execution_time).max_wait_time >= m.max_wait_time,
        m.after_completion(task, worker_id, execution_time).max_wait_time == match task.spec_wait_time() {
            Some(w) => if w > m.max_wait_time { w } else { m.max_wait_time },
            None => m.max_wait_time,
        },
{
}

} // verus!
