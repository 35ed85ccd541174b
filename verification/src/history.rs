use vstd::prelude::*;
use crate::task::{Task, TaskKind};

verus! {

/// What one recorded completion consists of: the task, the worker that ran
/// it, and how long it ran (nanoseconds).
#[derive(Clone, Copy, Debug)]
pub struct CompletionRecord {
    pub task: Task,
    pub worker_id: usize,
    pub execution_time: u128,
}

/// A quantity that a completion contributes to the metrics.
pub enum Measure {
    /// One for a CPU task, else zero.
    CpuCount,
    /// One for an I/O task, else zero.
    IoCount,
    /// The task's wait, zero when it never started.
    Wait,
    /// The wait of a CPU task, else zero.
    CpuWait,
    /// The wait of an I/O task, else zero.
    IoWait,
    /// The task's turnaround, zero unless it started and completed.
    Turnaround,
    /// One past the worker's index: the number of busy-time slots it needs.
    WorkerSlots,
    /// The execution time when the given worker ran the task, else zero.
    Busy(int),
}

/// The wait of the recorded task, or zero when it never started.
pub open spec fn wait_of(r: CompletionRecord) -> int {
    match r.task.spec_wait_time() {
        Some(w) => w as int,
        None => 0,
    }
}

/// The turnaround of the recorded task, or zero when it has none.
pub open spec fn turnaround_of(r: CompletionRecord) -> int {
    match r.task.spec_turnaround_time() {
        Some(t) => t as int,
        None => 0,
    }
}

/// What record `r` contributes to measure `m`.
pub open spec fn measure(m: Measure, r: CompletionRecord) -> int {
    let cpu = r.task.kind == TaskKind::Cpu;
    match m {
        Measure::CpuCount => if cpu { 1 } else { 0 },
        Measure::IoCount => if cpu { 0 } else { 1 },
        Measure::Wait => wait_of(r),
        Measure::CpuWait => if cpu { wait_of(r) } else { 0 },
        Measure::IoWait => if cpu { 0 } else { wait_of(r) },
        Measure::Turnaround => turnaround_of(r),
        Measure::WorkerSlots => r.worker_id + 1,
        Measure::Busy(w) => if r.worker_id == w { r.execution_time as int } else { 0 },
    }
}

/// The total of measure `m` over the records.
pub open spec fn sum_of(s: Seq<CompletionRecord>, m: Measure) -> int
    decreases s.len(),
{
    if s.len() == 0 {
        0
    } else {
        sum_of(s.drop_last(), m) + measure(m, s.last())
    }
}

/// The largest value of measure `m` over the records, or zero when there are none.
pub open spec fn max_of(s: Seq<CompletionRecord>, m: Measure) -> int
    decreases s.len(),
{
    if s.len() == 0 {
        0
    } else {
        let rest = max_of(s.drop_last(), m);
        let x = measure(m, s.last());
        if x > rest {
            x
        } else {
            rest
        }
    }
}

pub proof fn lemma_sum_of_push(s: Seq<CompletionRecord>, r: CompletionRecord, m: Measure)
    ensures
        sum_of(s.push(r), m) == sum_of(s, m) + measure(m, r),
        max_of(s.push(r), m) == if measure(m, r) > max_of(s, m) { measure(m, r) } else { max_of(s, m) },
{
    assert(s.push(r).drop_last() =~= s);
}

proof fn lemma_remove_then_drop_last(s: Seq<CompletionRecord>, i: int)
    requires
        0 <= i < s.len() - 1,
    ensures
        s.remove(i).drop_last() =~= s.drop_last().remove(i),
        s.remove(i).last() == s.last(),
{
}

/// Taking one record out of a total takes its contribution out.
pub proof fn lemma_sum_of_remove(s: Seq<CompletionRecord>, i: int, m: Measure)
    requires
        0 <= i < s.len(),
    ensures
        sum_of(s, m) == sum_of(s.remove(i), m) + measure(m, s[i]),
    decreases s.len(),
{
    if i == s.len() - 1 {
        assert(s.remove(i) =~= s.drop_last());
    } else {
        lemma_remove_then_drop_last(s, i);
        lemma_sum_of_remove(s.drop_last(), i, m);
    }
}

/// Taking one record out of a maximum: the maximum is the larger of the rest's
/// maximum and that record's value.
pub proof fn lemma_max_of_remove(s: Seq<CompletionRecord>, i: int, m: Measure)
    requires
        0 <= i < s.len(),
    ensures
        max_of(s, m) == if measure(m, s[i]) > max_of(s.remove(i), m) {
            measure(m, s[i])
        } else {
            max_of(s.remove(i), m)
        },
    decreases s.len(),
{
    if i == s.len() - 1 {
        assert(s.remove(i) =~= s.drop_last());
    } else {
        lemma_remove_then_drop_last(s, i);
        lemma_max_of_remove(s.drop_last(), i, m);
    }
}

/// Totals and maxima depend only on which records there are, not on their order.
pub proof fn lemma_order_irrelevant(s1: Seq<CompletionRecord>, s2: Seq<CompletionRecord>, m: Measure)
    requires
        s1.to_multiset() == s2.to_multiset(),
    ensures
        sum_of(s1, m) == sum_of(s2, m),
        max_of(s1, m) == max_of(s2, m),
    decreases s1.len(),
{
    broadcast use vstd::seq_lib::group_to_multiset_ensures;

    assert(s1.to_multiset().len() == s1.len());
    assert(s2.to_multiset().len() == s2.len());
    if s1.len() == 0 {
        assert(s2.len() == 0);
    } else {
        let x = s1.last();
        assert(s1.contains(x)) by {
            assert(s1[s1.len() - 1] == x);
        }
        assert(s2.to_multiset().count(x) > 0);
        assert(s2.contains(x));
        let i = choose|i: int| 0 <= i < s2.len() && s2[i] == x;
        assert(s1.remove(s1.len() - 1) =~= s1.drop_last());
        assert(s1.drop_last().to_multiset() == s2.remove(i).to_multiset());
        lemma_order_irrelevant(s1.drop_last(), s2.remove(i), m);
        lemma_sum_of_remove(s2, i, m);
        lemma_max_of_remove(s2, i, m);
    }
}

/// The maximum bounds every record's value and, when positive, is the value
/// of some record.
pub proof fn lemma_max_of_attained(s: Seq<CompletionRecord>, m: Measure)
    ensures
        forall|i: int| 0 <= i < s.len() ==> measure(m, #[trigger] s[i]) <= max_of(s, m),
        max_of(s, m) >= 0,
        max_of(s, m) > 0 ==> exists|i: int| 0 <= i < s.len() && measure(m, #[trigger] s[i]) == max_of(s, m),
    decreases s.len(),
{
    if s.len() > 0 {
        lemma_max_of_attained(s.drop_last(), m);
        assert forall|i: int| 0 <= i < s.len() implies measure(m, #[trigger] s[i]) <= max_of(s, m) by {
            if i < s.len() - 1 {
                assert(s[i] == s.drop_last()[i]);
            }
        }
        if max_of(s, m) > 0 {
            if measure(m, s.last()) > max_of(s.drop_last(), m) {
                assert(measure(m, s[s.len() - 1]) == max_of(s, m));
            } else {
                let i = choose|i: int|
                    0 <= i < s.drop_last().len() && measure(m, #[trigger] s.drop_last()[i]) == max_of(
                        s.drop_last(),
                        m,
                    );
                assert(s[i] == s.drop_last()[i]);
            }
        }
    }
}

/// A worker beyond every recorded worker has no busy time.
pub proof fn lemma_busy_of_unseen_worker(s: Seq<CompletionRecord>, w: int)
    requires
        w >= max_of(s, Measure::WorkerSlots),
    ensures
        sum_of(s, Measure::Busy(w)) == 0,
    decreases s.len(),
{
    if s.len() > 0 {
        lemma_busy_of_unseen_worker(s.drop_last(), w);
    }
}

} // verus!
