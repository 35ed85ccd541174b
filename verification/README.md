# task_dispatcher

A concurrent task dispatcher that simulates an OS-style scheduler with a CPU
queue and an I/O queue, served under FIFO or weighted round-robin, with
workers fed round-robin and metrics on waits, turnaround and utilisation.

- `src/` is the verified library: tasks (`task`), workload and policy
  (`config`), reproducible task generation over `rand` (`generator`,
  `random`), the scheduling core with its decision function and fairness
  proofs (`dispatcher`), and the metrics with their invariant (`metrics`),
  whose counts and totals are those of the recorded completions (`history`).
  Instants are nanoseconds since an epoch of a monotonic clock; durations are
  nanoseconds.
- `app/` is the program: it reads the clock, runs the generator, dispatcher
  and worker threads over `crossbeam-channel`, prints the results and writes
  the monitor CSV.
- `tests/` exercises the library on concrete values.
