use vstd::prelude::*;

verus! {

/// The two classes of work the dispatcher keeps apart.
#[derive(Clone, Copy, Debug, PartialEq, Eq, Structural)]
pub enum TaskKind {
    Cpu,
    Io,
}

/// A unit of work. Instants (`created_at`, `started_at`, `completed_at`) are
/// nanoseconds since the clock's epoch; `duration` is in nanoseconds.
#[derive(Clone, Copy, Debug)]
pub struct Task {
    pub id: u64,
    pub kind: TaskKind,
    pub duration: u128,
    pub created_at: u128,
    pub started_at: Option<u128>,
    pub completed_at: Option<u128>,
}

/// The time from `earlier` to `later`, or zero when `earlier` is the later one:
/// the difference of two instants saturates at zero.
pub open spec fn elapsed_between(later: u128, earlier: u128) -> u128 {
    if later >= earlier {
        (later - earlier) as u128
    } else {
        0
    }
}

/// Executable form of `elapsed_between`.
pub fn saturating_elapsed(later: u128, earlier: u128) -> (r: u128)
    ensures
        r == elapsed_between(later, earlier),
{
    if later >= earlier {
        later - earlier
    } else {
        0
    }
}

impl Task {
    /// What `wait_time` returns: the time from creation to start, once started.
    pub open spec fn spec_wait_time(self) -> Option<u128> {
        match self.started_at {
            Some(start) => Some(elapsed_between(start, self.created_at)),
            None => None,
        }
    }

    /// What `turnaround_time` returns: the time from creation to completion,
    /// once the task has both started and completed.
    pub open spec fn spec_turnaround_time(self) -> Option<u128> {
        match (self.started_at, self.completed_at) {
            (Some(_start), Some(end)) => Some(elapsed_between(end, self.created_at)),
            _ => None,
        }
    }

    /// A task that was created at `created_at` and has neither started nor completed.
    pub fn new(id: u64, kind: TaskKind, duration: u128, created_at: u128) -> (t: Self)
        ensures
            t.id == id,
            t.kind == kind,
            t.duration == duration,
            t.created_at == created_at,
            t.started_at.is_none(),
            t.completed_at.is_none(),
    {
        Task { id, kind, duration, created_at, started_at: None, completed_at: None }
    }

    /// How long the task waited between creation and start; `None` before it starts.
    pub fn wait_time(&self) -> (r: Option<u128>)
        ensures
            r == self.spec_wait_time(),
    {
        match self.started_at {
            Some(start) => Some(saturating_elapsed(start, self.created_at)),
            None => None,
        }
    }

    /// How long the task took from creation to completion; `None` unless it
    /// has both started and completed.
    pub fn turnaround_time(&self) -> (r: Option<u128>)
        ensures
            r == self.spec_turnaround_time(),
    {
        match (self.started_at, self.completed_at) {
            (Some(_start), Some(end)) => Some(saturating_elapsed(end, self.created_at)),
            _ => None,
        }
    }

    /// Marks the task as started at `start_time`.
    pub fn start(&mut self, start_time: u128)
        ensures
            final(self).started_at == Some(start_time),
            final(self).id == old(self).id,
            final(self).kind == old(self).kind,
            final(self).duration == old(self).duration,
            final(self).created_at == old(self).created_at,
            final(self).completed_at == old(self).completed_at,
    {
        self.started_at = Some(start_time);
    }

    /// Marks the task as completed at `complete_time`.
    pub fn complete(&mut self, complete_time: u128)
        ensures
            final(self).completed_at == Some(complete_time),
            final(self).id == old(self).id,
            final(self).kind == old(self).kind,
            final(self).duration == old(self).duration,
            final(self).created_at == old(self).created_at,
            final(self).started_at == old(self).started_at,
    {
        self.completed_at = Some(complete_time);
    }
}

/// A task that completes no earlier than it started has waited no longer
/// than its turnaround time.
pub proof fn lemma_wait_within_turnaround(task: Task)
    requires
        task.started_at is Some,
        task.completed_at is Some,
        task.started_at->0 <= task.completed_at->0,
    ensures
        task.spec_wait_time() is Some,
        task.spec_turnaround_time() is Some,
        task.spec_wait_time()->0 <= task.spec_turnaround_time()->0,
{
}

} // verus!
