use vstd::prelude::*;
use std::collections::VecDeque;
use crate::task::{Task, TaskKind};
use crate::config::SchedulingPolicy;

verus! {

/// One weighted round-robin decision: spend a CPU token on a ready CPU task,
/// else an I/O token on a ready I/O task; when neither can be spent, refill
/// both counts from the weights and try again in the same order.
/// Returns the queue to serve and the token counts afterwards.
pub open spec fn wrr_select(
    cpu_tokens: usize,
    io_tokens: usize,
    cpu_weight: usize,
    io_weight: usize,
    cpu_ready: bool,
    io_ready: bool,
) -> (Option<TaskKind>, usize, usize) {
    if cpu_tokens > 0 && cpu_ready {
        (Some(TaskKind::Cpu), (cpu_tokens - 1) as usize, io_tokens)
    } else if io_tokens > 0 && io_ready {
        (Some(TaskKind::Io), cpu_tokens, (io_tokens - 1) as usize)
    } else if cpu_weight > 0 && cpu_ready {
        (Some(TaskKind::Cpu), (cpu_weight - 1) as usize, io_weight)
    } else if io_weight > 0 && io_ready {
        (Some(TaskKind::Io), cpu_weight, (io_weight - 1) as usize)
    } else {
        (None, cpu_weight, io_weight)
    }
}

/// The dispatcher's decision for one round: nothing (and no token change)
/// when both queues are empty; under FIFO the CPU queue whenever it has
/// work, else the I/O queue; under weighted round-robin `wrr_select`.
pub open spec fn select_spec(
    policy: SchedulingPolicy,
    cpu_tokens: usize,
    io_tokens: usize,
    cpu_ready: bool,
    io_ready: bool,
) -> (Option<TaskKind>, usize, usize) {
    if !cpu_ready && !io_ready {
        (None, cpu_tokens, io_tokens)
    } else {
        match policy {
            SchedulingPolicy::Fifo => (
                if cpu_ready { Some(TaskKind::Cpu) } else { Some(TaskKind::Io) },
                cpu_tokens,
                io_tokens,
            ),
            SchedulingPolicy::WeightedRoundRobin { cpu_weight, io_weight } => wrr_select(
                cpu_tokens,
                io_tokens,
                cpu_weight,
                io_weight,
                cpu_ready,
                io_ready,
            ),
        }
    }
}

/// One scheduling round took the dispatcher from `pre` to `post` and gave
/// `r`: the round decided by `select_spec`, set the token counts it chose,
/// and took the task at the front of the chosen queue; nothing else changed.
pub open spec fn dispatch_step(pre: DispatcherView, post: DispatcherView, r: Option<Task>) -> bool {
    let sel = select_spec(
        pre.policy,
        pre.cpu_tokens,
        pre.io_tokens,
        pre.cpu_queue.len() > 0,
        pre.io_queue.len() > 0,
    );
    &&& post.cpu_tokens == sel.1
    &&& post.io_tokens == sel.2
    &&& post.policy == pre.policy
    &&& post.next_worker == pre.next_worker
    &&& post.num_workers == pre.num_workers
    &&& post.assigned == pre.assigned
    &&& match sel.0 {
        Some(TaskKind::Cpu) => {
            &&& r == Some(pre.cpu_queue[0])
            &&& post.cpu_queue == pre.cpu_queue.drop_first()
            &&& post.io_queue == pre.io_queue
        },
        Some(TaskKind::Io) => {
            &&& r == Some(pre.io_queue[0])
            &&& post.io_queue == pre.io_queue.drop_first()
            &&& post.cpu_queue == pre.cpu_queue
        },
        None => {
            &&& r.is_none()
            &&& post.cpu_queue == pre.cpu_queue
            &&& post.io_queue == pre.io_queue
        },
    }
}

/// Token counts never exceed the weights they are refilled from.
pub open spec fn tokens_valid(policy: SchedulingPolicy, cpu_tokens: usize, io_tokens: usize) -> bool {
    cpu_tokens <= policy.weights().0 && io_tokens <= policy.weights().1
}

/// How weighted round-robin accounts for tokens in one round that gave `r`
/// (the queue served and the token counts after it):
/// - a served queue has work;
/// - while a CPU token can be spent on CPU work, one is, and nothing else changes;
/// - else while an I/O token can be spent on I/O work, one is, and nothing else changes;
/// - else, when some queue has work, the round is a refill: both counts start
///   again from their weights, whatever the queues hold, less the one token
///   spent on the kind served; CPU work goes first, and a task is served
///   exactly when a queue with work has a positive weight;
/// - else (no work at all) nothing changes.
pub open spec fn wrr_accounting(
    cpu_weight: usize,
    io_weight: usize,
    cpu_tokens: usize,
    io_tokens: usize,
    cpu_ready: bool,
    io_ready: bool,
    r: (Option<TaskKind>, usize, usize),
) -> bool {
    &&& (r.0 == Some(TaskKind::Cpu) ==> cpu_ready)
    &&& (r.0 == Some(TaskKind::Io) ==> io_ready)
    &&& if cpu_tokens > 0 && cpu_ready {
        r.0 == Some(TaskKind::Cpu) && r.1 == cpu_tokens - 1 && r.2 == io_tokens
    } else if io_tokens > 0 && io_ready {
        r.0 == Some(TaskKind::Io) && r.1 == cpu_tokens && r.2 == io_tokens - 1
    } else if cpu_ready || io_ready {
        &&& (r.0 is Some <==> (cpu_weight > 0 && cpu_ready) || (io_weight > 0 && io_ready))
        &&& (r.0 == Some(TaskKind::Io) ==> !(cpu_weight > 0 && cpu_ready))
        &&& r.1 == (if r.0 == Some(TaskKind::Cpu) { cpu_weight - 1 } else { cpu_weight as int })
        &&& r.2 == (if r.0 == Some(TaskKind::Io) { io_weight - 1 } else { io_weight as int })
    } else {
        r.0 is None && r.1 == cpu_tokens && r.2 == io_tokens
    }
}

/// Weighted round-robin spends one token per task served, and a refill
/// round resets both token counts to the weights (less the token it spends),
/// whether or not the other queue has work at that moment.
pub proof fn lemma_wrr_token_accounting(
    cpu_weight: usize,
    io_weight: usize,
    cpu_tokens: usize,
    io_tokens: usize,
    cpu_ready: bool,
    io_ready: bool,
)
    ensures
        wrr_accounting(
            cpu_weight,
            io_weight,
            cpu_tokens,
            io_tokens,
            cpu_ready,
            io_ready,
            select_spec(
                SchedulingPolicy::WeightedRoundRobin { cpu_weight, io_weight },
                cpu_tokens,
                io_tokens,
                cpu_ready,
                io_ready,
            ),
        ),
{
}

/// Executable form of `select_spec`.
pub fn select_queue(
    policy: &SchedulingPolicy,
    cpu_tokens: usize,
    io_tokens: usize,
    cpu_ready: bool,
    io_ready: bool,
) -> (r: (Option<TaskKind>, usize, usize))
    ensures
        r == select_spec(*policy, cpu_tokens, io_tokens, cpu_ready, io_ready),
        *policy matches SchedulingPolicy::WeightedRoundRobin { cpu_weight, io_weight } ==> wrr_accounting(
            cpu_weight,
            io_weight,
            cpu_tokens,
            io_tokens,
            cpu_ready,
            io_ready,
            r,
        ),
        *policy is Fifo ==> r == (if cpu_ready {
            Some(TaskKind::Cpu)
        } else if io_ready {
            Some(TaskKind::Io)
        } else {
            None
        }, cpu_tokens, io_tokens),
{
    if !cpu_ready && !io_ready {
        return (None, cpu_tokens, io_tokens);
    }
    match policy {
        SchedulingPolicy::Fifo => {
            if cpu_ready {
                (Some(TaskKind::Cpu), cpu_tokens, io_tokens)
            } else {
                (Some(TaskKind::Io), cpu_tokens, io_tokens)
            }
        },
        SchedulingPolicy::WeightedRoundRobin { cpu_weight, io_weight } => {
            let cpu_weight = *cpu_weight;
            let io_weight = *io_weight;
            if cpu_tokens > 0 && cpu_ready {
                (Some(TaskKind::Cpu), cpu_tokens - 1, io_tokens)
            } else if io_tokens > 0 && io_ready {
                (Some(TaskKind::Io), cpu_tokens, io_tokens - 1)
            } else if cpu_weight > 0 && cpu_ready {
                (Some(TaskKind::Cpu), cpu_weight - 1, io_weight)
            } else if io_weight > 0 && io_ready {
                (Some(TaskKind::Io), cpu_weight, io_weight - 1)
            } else {
                (None, cpu_weight, io_weight)
            }
        },
    }
}

/// The abstract state of a dispatcher.
pub struct DispatcherView {
    pub cpu_queue: Seq<Task>,
    pub io_queue: Seq<Task>,
    pub policy: SchedulingPolicy,
    pub cpu_tokens: usize,
    pub io_tokens: usize,
    pub next_worker: usize,
    pub num_workers: usize,
    /// How many tasks have been assigned to workers so far.
    pub assigned: nat,
}

/// The scheduling core of the dispatcher: one FIFO queue per task kind, the
/// policy with its token counts, and the round-robin cursor over workers.
pub struct Dispatcher {
    cpu_queue: VecDeque<Task>,
    io_queue: VecDeque<Task>,
    policy: SchedulingPolicy,
    cpu_tokens: usize,
    io_tokens: usize,
    next_worker: usize,
    num_workers: usize,
    assigned: Ghost<nat>,
}

impl View for Dispatcher {
    type V = DispatcherView;

    closed spec fn view(&self) -> DispatcherView {
        DispatcherView {
            cpu_queue: self.cpu_queue@,
            io_queue: self.io_queue@,
            policy: self.policy,
            cpu_tokens: self.cpu_tokens,
            io_tokens: self.io_tokens,
            next_worker: self.next_worker,
            num_workers: self.num_workers,
            assigned: self.assigned@,
        }
    }
}

impl DispatcherView {
    /// Every queued task sits in the queue of its kind, the tokens stay within
    /// the weights, and the worker cursor is the number of assignments so far
    /// modulo the number of workers (0 without workers).
    pub open spec fn wf(self) -> bool {
        &&& forall|i: int| 0 <= i < self.cpu_queue.len() ==> #[trigger] self.cpu_queue[i].kind == TaskKind::Cpu
        &&& forall|i: int| 0 <= i < self.io_queue.len() ==> #[trigger] self.io_queue[i].kind == TaskKind::Io
        &&& tokens_valid(self.policy, self.cpu_tokens, self.io_tokens)
        &&& if self.num_workers > 0 {
            self.next_worker == self.assigned % (self.num_workers as nat)
        } else {
            self.next_worker == 0
        }
    }
}

impl Dispatcher {
    /// An idle dispatcher for `num_workers` workers: empty queues, full
    /// token counts, and the worker cursor at worker 0.
    pub fn new(num_workers: usize, policy: SchedulingPolicy) -> (d: Self)
        ensures
            d@.wf(),
            d@.cpu_queue == Seq::<Task>::empty(),
            d@.io_queue == Seq::<Task>::empty(),
            d@.policy == policy,
            d@.cpu_tokens == policy.weights().0,
            d@.io_tokens == policy.weights().1,
            d@.next_worker == 0,
            d@.num_workers == num_workers,
            d@.assigned == 0,
    {
        let (cpu_tokens, io_tokens) = policy.token_weights();
        proof {
            if num_workers > 0 {
                vstd::arithmetic::div_mod::lemma_small_mod(0, num_workers as nat);
            }
        }
        Dispatcher {
            cpu_queue: VecDeque::new(),
            io_queue: VecDeque::new(),
            policy,
            cpu_tokens,
            io_tokens,
            next_worker: 0,
            num_workers,
            assigned: Ghost(0),
        }
    }

    /// Appends `task` to the back of the queue of its kind.
    pub fn submit_task(&mut self, task: Task)
        requires
            old(self)@.wf(),
        ensures
            final(self)@.wf(),
            task.kind == TaskKind::Cpu ==> final(self)@.cpu_queue == old(self)@.cpu_queue.push(task)
                && final(self)@.io_queue == old(self)@.io_queue,
            task.kind == TaskKind::Io ==> final(self)@.io_queue == old(self)@.io_queue.push(task)
                && final(self)@.cpu_queue == old(self)@.cpu_queue,
            final(self)@.policy == old(self)@.policy,
            final(self)@.cpu_tokens == old(self)@.cpu_tokens,
            final(self)@.io_tokens == old(self)@.io_tokens,
            final(self)@.next_worker == old(self)@.next_worker,
            final(self)@.num_workers == old(self)@.num_workers,
            final(self)@.assigned == old(self)@.assigned,
    {
        match task.kind {
            TaskKind::Cpu => self.cpu_queue.push_back(task),
            TaskKind::Io => self.io_queue.push_back(task),
        }
    }

    /// The number of tasks waiting in the CPU queue and in the I/O queue.
    pub fn queue_lengths(&self) -> (r: (usize, usize))
        ensures
            r.0 == self@.cpu_queue.len(),
            r.1 == self@.io_queue.len(),
    {
        (self.cpu_queue.len(), self.io_queue.len())
    }

    /// The number of workers tasks are assigned to.
    pub fn num_workers(&self) -> (r: usize)
        ensures
            r == self@.num_workers,
    {
        self.num_workers
    }

    /// The scheduling policy.
    pub fn policy(&self) -> (r: SchedulingPolicy)
        ensures
            r == self@.policy,
    {
        self.policy
    }

    /// One scheduling round: decides by `select_spec` which queue to serve,
    /// updates the token counts, and takes the task at the front of that queue.
    pub fn dispatch_next(&mut self) -> (r: Option<Task>)
        requires
            old(self)@.wf(),
        ensures
            final(self)@.wf(),
            dispatch_step(old(self)@, final(self)@, r),
    {
        let cpu_ready = self.cpu_queue.len() > 0;
        let io_ready = self.io_queue.len() > 0;
        let (kind, cpu_tokens, io_tokens) = select_queue(
            &self.policy,
            self.cpu_tokens,
            self.io_tokens,
            cpu_ready,
            io_ready,
        );
        proof {
            lemma_tokens_stay_valid(self.policy, self.cpu_tokens, self.io_tokens, cpu_ready, io_ready);
        }
        self.cpu_tokens = cpu_tokens;
        self.io_tokens = io_tokens;
        match kind {
            Some(TaskKind::Cpu) => self.cpu_queue.pop_front(),
            Some(TaskKind::Io) => self.io_queue.pop_front(),
            None => None,
        }
    }

    /// Picks the worker for the next dispatched task, cycling through the
    /// workers in order: the `k`-th assignment since `new` (counting from 0)
    /// goes to worker `k % num_workers`.
    pub fn assign_worker(&mut self) -> (w: usize)
        requires
            old(self)@.wf(),
            old(self)@.num_workers > 0,
        ensures
            final(self)@.wf(),
            w == old(self)@.next_worker,
            w == old(self)@.assigned % (old(self)@.num_workers as nat),
            w < old(self)@.num_workers,
            final(self)@.assigned == old(self)@.assigned + 1,
            final(self)@.next_worker == (old(self)@.next_worker + 1) % (old(self)@.num_workers as int),
            final(self)@.cpu_queue == old(self)@.cpu_queue,
            final(self)@.io_queue == old(self)@.io_queue,
            final(self)@.policy == old(self)@.policy,
            final(self)@.cpu_tokens == old(self)@.cpu_tokens,
            final(self)@.io_tokens == old(self)@.io_tokens,
            final(self)@.num_workers == old(self)@.num_workers,
    {
        let worker_id = self.next_worker;
        self.next_worker = (self.next_worker + 1) % self.num_workers;
        proof {
            vstd::arithmetic::div_mod::lemma_add_mod_noop_right(
                1,
                self.assigned@ as int,
                self.num_workers as int,
            );
        }
        self.assigned = Ghost(self.assigned@ + 1);
        worker_id
    }
}

/// Token counts that start within the weights stay within them.
pub proof fn lemma_tokens_stay_valid(
    policy: SchedulingPolicy,
    cpu_tokens: usize,
    io_tokens: usize,
    cpu_ready: bool,
    io_ready: bool,
)
    requires
        tokens_valid(policy, cpu_tokens, io_tokens),
    ensures
        ({
            let sel = select_spec(policy, cpu_tokens, io_tokens, cpu_ready, io_ready);
            tokens_valid(policy, sel.1, sel.2)
        }),
{
}

/// The dispatcher never idles while it may serve a task: a round dispatches
/// exactly when some queue has work that the policy lets it serve (under
/// weighted round-robin, a queue whose weight is zero is never served).
pub proof fn lemma_work_conserving(
    policy: SchedulingPolicy,
    cpu_tokens: usize,
    io_tokens: usize,
    cpu_ready: bool,
    io_ready: bool,
)
    requires
        tokens_valid(policy, cpu_tokens, io_tokens),
    ensures
        select_spec(policy, cpu_tokens, io_tokens, cpu_ready, io_ready).0 is Some <==> match policy {
            SchedulingPolicy::Fifo => cpu_ready || io_ready,
            SchedulingPolicy::WeightedRoundRobin { cpu_weight, io_weight } => (cpu_weight > 0
                && cpu_ready) || (io_weight > 0 && io_ready),
        },
        select_spec(policy, cpu_tokens, io_tokens, cpu_ready, io_ready).0 == Some(TaskKind::Cpu)
            ==> cpu_ready,
        select_spec(policy, cpu_tokens, io_tokens, cpu_ready, io_ready).0 == Some(TaskKind::Io)
            ==> io_ready,
{
}

/// Whether weighted round-robin serves a waiting I/O task within the rounds
/// of `cpu_ready`, where `cpu_ready[k]` says whether the CPU queue has work in
/// round `k` and the I/O queue has work in every round.
pub open spec fn io_served_within(
    cpu_tokens: usize,
    io_tokens: usize,
    cpu_weight: usize,
    io_weight: usize,
    cpu_ready: Seq<bool>,
) -> bool
    decreases cpu_ready.len(),
{
    if cpu_ready.len() == 0 {
        false
    } else {
        let sel = wrr_select(cpu_tokens, io_tokens, cpu_weight, io_weight, cpu_ready[0], true);
        sel.0 == Some(TaskKind::Io) || io_served_within(
            sel.1,
            sel.2,
            cpu_weight,
            io_weight,
            cpu_ready.drop_first(),
        )
    }
}

/// Whether weighted round-robin serves a waiting CPU task within the rounds
/// of `io_ready`, where `io_ready[k]` says whether the I/O queue has work in
/// round `k` and the CPU queue has work in every round.
pub open spec fn cpu_served_within(
    cpu_tokens: usize,
    io_tokens: usize,
    cpu_weight: usize,
    io_weight: usize,
    io_ready: Seq<bool>,
) -> bool
    decreases io_ready.len(),
{
    if io_ready.len() == 0 {
        false
    } else {
        let sel = wrr_select(cpu_tokens, io_tokens, cpu_weight, io_weight, true, io_ready[0]);
        sel.0 == Some(TaskKind::Cpu) || cpu_served_within(
            sel.1,
            sel.2,
            cpu_weight,
            io_weight,
            io_ready.drop_first(),
        )
    }
}

/// The number of CPU tasks weighted round-robin may still serve before a
/// waiting I/O task: the CPU tokens left, plus a whole CPU round when the I/O
/// tokens are spent.
pub open spec fn io_wait_bound(cpu_tokens: usize, io_tokens: usize, cpu_weight: usize) -> nat {
    if io_tokens > 0 {
        cpu_tokens as nat
    } else {
        (cpu_tokens + cpu_weight) as nat
    }
}

proof fn lemma_io_served_by_bound(
    cpu_tokens: usize,
    io_tokens: usize,
    cpu_weight: usize,
    io_weight: usize,
    cpu_ready: Seq<bool>,
)
    requires
        io_weight > 0,
        cpu_tokens <= cpu_weight,
        io_tokens <= io_weight,
        cpu_ready.len() > io_wait_bound(cpu_tokens, io_tokens, cpu_weight),
    ensures
        io_served_within(cpu_tokens, io_tokens, cpu_weight, io_weight, cpu_ready),
    decreases cpu_ready.len(),
{
    let sel = wrr_select(cpu_tokens, io_tokens, cpu_weight, io_weight, cpu_ready[0], true);
    if sel.0 != Some(TaskKind::Io) {
        lemma_io_served_by_bound(sel.1, sel.2, cpu_weight, io_weight, cpu_ready.drop_first());
    }
}

/// Weighted round-robin does not starve I/O work: while the I/O queue holds
/// work, an I/O task is served within `2 * cpu_weight + 1` rounds, whatever
/// the CPU queue holds, from any token counts within the weights.
pub proof fn lemma_io_not_starved(
    cpu_tokens: usize,
    io_tokens: usize,
    cpu_weight: usize,
    io_weight: usize,
    cpu_ready: Seq<bool>,
)
    requires
        io_weight > 0,
        cpu_tokens <= cpu_weight,
        io_tokens <= io_weight,
        cpu_ready.len() >= 2 * cpu_weight + 1,
    ensures
        io_served_within(cpu_tokens, io_tokens, cpu_weight, io_weight, cpu_ready),
{
    lemma_io_served_by_bound(cpu_tokens, io_tokens, cpu_weight, io_weight, cpu_ready);
}

proof fn lemma_cpu_served_by_bound(
    cpu_tokens: usize,
    io_tokens: usize,
    cpu_weight: usize,
    io_weight: usize,
    io_ready: Seq<bool>,
)
    requires
        cpu_weight > 0,
        cpu_tokens <= cpu_weight,
        io_tokens <= io_weight,
        io_ready.len() > (if cpu_tokens > 0 { 0 } else { io_tokens as int }),
    ensures
        cpu_served_within(cpu_tokens, io_tokens, cpu_weight, io_weight, io_ready),
    decreases io_ready.len(),
{
    let sel = wrr_select(cpu_tokens, io_tokens, cpu_weight, io_weight, true, io_ready[0]);
    if sel.0 != Some(TaskKind::Cpu) {
        lemma_cpu_served_by_bound(sel.1, sel.2, cpu_weight, io_weight, io_ready.drop_first());
    }
}

/// Weighted round-robin does not starve CPU work: while the CPU queue holds
/// work, a CPU task is served within `io_weight + 1` rounds, whatever the I/O
/// queue holds, from any token counts within the weights.
pub proof fn lemma_cpu_not_starved(
    cpu_tokens: usize,
    io_tokens: usize,
    cpu_weight: usize,
    io_weight: usize,
    io_ready: Seq<bool>,
)
    requires
        cpu_weight > 0,
        cpu_tokens <= cpu_weight,
        io_tokens <= io_weight,
        io_ready.len() >= io_weight + 1,
    ensures
        cpu_served_within(cpu_tokens, io_tokens, cpu_weight, io_weight, io_ready),
{
    lemma_cpu_served_by_bound(cpu_tokens, io_tokens, cpu_weight, io_weight, io_ready);
}

/// The worker that the `k`-th of consecutive `assign_worker` calls returns
/// (counting from 0), when the cursor starts at `start` over `n` workers.
pub open spec fn round_robin_worker(start: int, n: int, k: int) -> int {
    (start + k) % n
}

/// Worker `w` is among the first `n` workers assigned from cursor `start`.
pub open spec fn assigned_in_rotation(start: int, n: int, w: int) -> bool {
    exists|j: int| 0 <= j < n && #[trigger] round_robin_worker(start, n, j) == w
}

proof fn lemma_mod_below_twice(x: int, n: int)
    requires
        0 < n,
        0 <= x < 2 * n,
    ensures
        x % n == if x < n { x } else { x - n },
{
    if x < n {
        vstd::arithmetic::div_mod::lemma_small_mod(x as nat, n as nat);
    } else {
        vstd::arithmetic::div_mod::lemma_mod_add_multiples_vanish(x - n, n);
        vstd::arithmetic::div_mod::lemma_small_mod((x - n) as nat, n as nat);
    }
}

/// Round-robin assignment is fair: any `n` consecutive assignments give each
/// of the `n` workers exactly one task.
pub proof fn lemma_round_robin_fair(start: int, n: int)
    requires
        0 < n,
        0 <= start < n,
    ensures
        forall|w: int| 0 <= w < n ==> #[trigger] assigned_in_rotation(start, n, w),
        forall|i: int, j: int|
            0 <= i < j < n ==> #[trigger] round_robin_worker(start, n, i) != #[trigger] round_robin_worker(start, n, j),
{
    assert forall|w: int| 0 <= w < n implies #[trigger] assigned_in_rotation(start, n, w) by {
        let j = if w >= start { w - start } else { w + n - start };
        lemma_mod_below_twice(start + j, n);
        assert(round_robin_worker(start, n, j) == w);
    }
    assert forall|i: int, j: int| 0 <= i < j < n implies #[trigger] round_robin_worker(start, n, i) != #[trigger] round_robin_worker(start, n, j) by {
        lemma_mod_below_twice(start + i, n);
        lemma_mod_below_twice(start + j, n);
    }
}

/// All queued tasks, CPU queue first.
pub open spec fn queued(v: DispatcherView) -> Seq<Task> {
    v.cpu_queue + v.io_queue
}

/// Dispatching neither loses nor duplicates work: the tasks queued before a
/// round are those queued after it plus the one it handed out, and a task
/// handed out was at the front of the queue of its kind.
pub proof fn lemma_dispatch_conserves_tasks(pre: DispatcherView, post: DispatcherView, r: Option<Task>)
    requires
        pre.wf(),
        dispatch_step(pre, post, r),
    ensures
        match r {
            Some(t) => {
                &&& queued(pre).to_multiset() == queued(post).to_multiset().insert(t)
                &&& (t.kind == TaskKind::Cpu ==> t == pre.cpu_queue[0])
                &&& (t.kind == TaskKind::Io ==> t == pre.io_queue[0])
            },
            None => queued(pre) == queued(post),
        },
{
    broadcast use vstd::seq_lib::group_to_multiset_ensures;
    broadcast use vstd::seq_lib::lemma_multiset_commutative;

    let sel = select_spec(
        pre.policy,
        pre.cpu_tokens,
        pre.io_tokens,
        pre.cpu_queue.len() > 0,
        pre.io_queue.len() > 0,
    );
    match sel.0 {
        Some(TaskKind::Cpu) => {
            assert(pre.cpu_queue =~= seq![pre.cpu_queue[0]] + post.cpu_queue);
            assert(pre.cpu_queue[0].kind == TaskKind::Cpu);
            assert(seq![pre.cpu_queue[0]] =~= Seq::<Task>::empty().push(pre.cpu_queue[0]));
        },
        Some(TaskKind::Io) => {
            assert(pre.io_queue =~= seq![pre.io_queue[0]] + post.io_queue);
            assert(pre.io_queue[0].kind == TaskKind::Io);
            assert(seq![pre.io_queue[0]] =~= Seq::<Task>::empty().push(pre.io_queue[0]));
        },
        None => {},
    }
}

/// How many of the first `k` assignments since `new` go to worker `w`, with
/// `n` workers.
pub open spec fn assignments_to(k: nat, n: int, w: int) -> nat
    decreases k,
{
    if k == 0 {
        0
    } else {
        assignments_to((k - 1) as nat, n, w) + if (k - 1) % n == w { 1nat } else { 0nat }
    }
}

proof fn lemma_assignments_to_closed_form(k: nat, n: int, w: int)
    requires
        0 < n,
        0 <= w < n,
    ensures
        assignments_to(k, n, w) == (k as int) / n + if w < (k as int) % n { 1int } else { 0int },
    decreases k,
{
    if k == 0 {
        vstd::arithmetic::div_mod::lemma_fundamental_div_mod_converse_mod(0, n, 0, 0);
        vstd::arithmetic::div_mod::lemma_fundamental_div_mod_converse_div(0, n, 0, 0);
    } else {
        let j = (k - 1) as nat;
        lemma_assignments_to_closed_form(j, n, w);
        vstd::arithmetic::div_mod::lemma_fundamental_div_mod(j as int, n);
        vstd::arithmetic::div_mod::lemma_fundamental_div_mod(k as int, n);
        let q = j as int / n;
        let r = j as int % n;
        assert(0 <= r < n) by {
            vstd::arithmetic::div_mod::lemma_mod_bound(j as int, n);
        }
        if r + 1 < n {
            assert(k as int == q * n + (r + 1)) by (nonlinear_arith)
                requires
                    j as int == n * q + r,
                    k as int == j + 1,
            ;
            vstd::arithmetic::div_mod::lemma_fundamental_div_mod_converse_mod(k as int, n, q, r + 1);
            vstd::arithmetic::div_mod::lemma_fundamental_div_mod_converse_div(k as int, n, q, r + 1);
        } else {
            assert(k as int == (q + 1) * n + 0) by (nonlinear_arith)
                requires
                    j as int == n * q + r,
                    k as int == j + 1,
                    r + 1 == n,
            ;
            vstd::arithmetic::div_mod::lemma_fundamental_div_mod_converse_mod(k as int, n, q + 1, 0);
            vstd::arithmetic::div_mod::lemma_fundamental_div_mod_converse_div(k as int, n, q + 1, 0);
        }
    }
}

/// Round-robin assignment balances the load: after any number of
/// assignments since `new`, the numbers of tasks given to any two workers
/// differ by at most one.
pub proof fn lemma_round_robin_balanced(k: nat, n: int, w1: int, w2: int)
    requires
        0 < n,
        0 <= w1 < n,
        0 <= w2 < n,
    ensures
        assignments_to(k, n, w1) <= assignments_to(k, n, w2) + 1,
{
    lemma_assignments_to_closed_form(k, n, w1);
    lemma_assignments_to_closed_form(k, n, w2);
}

/// The queues weighted round-robin serves over `rounds` rounds in which
/// both queues have work, from the given token counts.
pub open spec fn wrr_busy_rounds(
    cpu_tokens: usize,
    io_tokens: usize,
    cpu_weight: usize,
    io_weight: usize,
    rounds: nat,
) -> Seq<Option<TaskKind>>
    decreases rounds,
{
    if rounds == 0 {
        Seq::empty()
    } else {
        let sel = select_spec(
            SchedulingPolicy::WeightedRoundRobin { cpu_weight, io_weight },
            cpu_tokens,
            io_tokens,
            true,
            true,
        );
        seq![sel.0] + wrr_busy_rounds(sel.1, sel.2, cpu_weight, io_weight, (rounds - 1) as nat)
    }
}

/// `cpu` CPU rounds followed by `io` I/O rounds.
pub open spec fn cpu_then_io(cpu: nat, io: nat) -> Seq<Option<TaskKind>> {
    Seq::new(cpu + io, |k: int| if k < cpu { Some(TaskKind::Cpu) } else { Some(TaskKind::Io) })
}

proof fn lemma_spend_tokens(cpu_tokens: usize, io_tokens: usize, cpu_weight: usize, io_weight: usize)
    requires
        cpu_tokens <= cpu_weight,
        io_tokens <= io_weight,
    ensures
        wrr_busy_rounds(cpu_tokens, io_tokens, cpu_weight, io_weight, (cpu_tokens + io_tokens) as nat)
            == cpu_then_io(cpu_tokens as nat, io_tokens as nat),
    decreases cpu_tokens + io_tokens,
{
    let n = (cpu_tokens + io_tokens) as nat;
    if n > 0 {
        let sel = select_spec(
            SchedulingPolicy::WeightedRoundRobin { cpu_weight, io_weight },
            cpu_tokens,
            io_tokens,
            true,
            true,
        );
        lemma_spend_tokens(sel.1, sel.2, cpu_weight, io_weight);
        assert(wrr_busy_rounds(cpu_tokens, io_tokens, cpu_weight, io_weight, n) =~= cpu_then_io(
            cpu_tokens as nat,
            io_tokens as nat,
        ));
    }
}

/// With both queues busy, weighted round-robin serves in rounds of exactly
/// `cpu_weight` CPU tasks followed by `io_weight` I/O tasks: from full
/// token counts, the next `cpu_weight + io_weight` rounds serve the CPU
/// queue `cpu_weight` times and then the I/O queue `io_weight` times; and
/// once the tokens are spent, a refill starts the same pattern again.
pub proof fn lemma_wrr_weighted_rounds(cpu_weight: usize, io_weight: usize)
    requires
        cpu_weight > 0,
    ensures
        wrr_busy_rounds(cpu_weight, io_weight, cpu_weight, io_weight, (cpu_weight + io_weight) as nat)
            == cpu_then_io(cpu_weight as nat, io_weight as nat),
        wrr_busy_rounds(0, 0, cpu_weight, io_weight, (cpu_weight + io_weight) as nat)
            == cpu_then_io(cpu_weight as nat, io_weight as nat),
{
    lemma_spend_tokens(cpu_weight, io_weight, cpu_weight, io_weight);
    let n = (cpu_weight + io_weight) as nat;
    lemma_spend_tokens((cpu_weight - 1) as usize, io_weight, cpu_weight, io_weight);
    assert(wrr_busy_rounds(0, 0, cpu_weight, io_weight, n) =~= seq![Some(TaskKind::Cpu)]
        + wrr_busy_rounds((cpu_weight - 1) as usize, io_weight, cpu_weight, io_weight, (n - 1) as nat));
    assert(wrr_busy_rounds(0, 0, cpu_weight, io_weight, n) =~= cpu_then_io(
        cpu_weight as nat,
        io_weight as nat,
    ));
}

} // verus!
