use vstd::prelude::*;

verus! {

/// How the dispatcher chooses between its CPU queue and its I/O queue.
#[derive(Clone, Copy, Debug)]
pub enum SchedulingPolicy {
    /// Always serve the CPU queue first; the I/O queue only when it is empty.
    Fifo,
    /// Serve up to `cpu_weight` CPU tasks and `io_weight` I/O tasks per round,
    /// spending one token per task and refilling both counts when no token
    /// can be spent.
    WeightedRoundRobin { cpu_weight: usize, io_weight: usize },
}

impl SchedulingPolicy {
    /// The token counts a round starts with: the weights, or one of each for FIFO.
    pub open spec fn weights(self) -> (usize, usize) {
        match self {
            SchedulingPolicy::Fifo => (1, 1),
            SchedulingPolicy::WeightedRoundRobin { cpu_weight, io_weight } => (cpu_weight, io_weight),
        }
    }

    /// Executable form of `weights`.
    pub fn token_weights(&self) -> (r: (usize, usize))
        ensures
            r == self.weights(),
    {
        match self {
            SchedulingPolicy::Fifo => (1, 1),
            SchedulingPolicy::WeightedRoundRobin { cpu_weight, io_weight } => (*cpu_weight, *io_weight),
        }
    }
}

/// The workload of a simulation run. Durations and arrival offsets are in
/// milliseconds; `cpu_ratio` is the chance that a task is CPU-bound, as a
/// numerator and a denominator.
#[derive(Clone, Copy, Debug)]
pub struct Config {
    pub num_workers: usize,
    pub num_tasks: usize,
    pub cpu_ratio: (u32, u32),
    pub arrival_spread_ms: u64,
    pub cpu_duration_ms: (u64, u64),
    pub io_duration_ms: (u64, u64),
    pub burst_mode: bool,
}

} // verus!
