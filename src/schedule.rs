//! A deterministic model of a cooperative scheduler with two lanes, a fixed
//! set of workers and a bounded set of threads that may block, running tasks
//! that use a bounded pool of handles.
//!
//! Acquiring a handle suspends cooperatively, except in a task declared not
//! to yield: there the whole acquire-and-use step holds the thread, as a
//! blocking driver would.

use vstd::prelude::*;

use crate::timeline::{as_ints, earliest, first_min, is_first_min, lemma_first_min_exists};

verus! {

/// Longest operation the model accepts, in milliseconds (about 4.6 hours).
pub const MAX_DURATION_MS: u64 = 16777216;

/// Longest acquire timeout the model accepts, in milliseconds.
pub const MAX_TIMEOUT_MS: u64 = 16777216;

/// Most tasks one run may spawn.
pub const MAX_TASKS: usize = 4096;

/// Latest time at which any task of a run can end.
pub const MAX_ELAPSED_MS: u64 = 137438953472;

/// Largest number of threads in either lane.
pub const MAX_THREADS: usize = 65536;

/// The lane a task is spawned on.
#[derive(Clone, Copy, Debug, PartialEq, Eq)]
pub enum Lane {
    /// One of the fixed set of workers that time-slice cooperative tasks.
    Cooperative,
    /// The bounded set of threads that may block outright.
    Blocking,
}

#[derive(Clone, Copy, Debug, PartialEq, Eq)]
pub enum TaskKind {
    /// Completes at once; only its start time is of interest.
    Probe,
    /// Acquires a pooled handle, uses it for a duration, releases it.
    Resource,
}

/// A task as spawned. `duration_ms`, `yields` and `fails` concern resource
/// tasks only: a yielding resource task suspends while it waits for a handle
/// and while it uses it; one that does not yield holds its thread throughout.
/// A task that `fails` runs its operation for the full duration, then the
/// backing system reports an error.
#[derive(Clone, Copy, Debug, PartialEq, Eq)]
pub struct TaskSpec {
    pub kind: TaskKind,
    pub lane: Lane,
    pub duration_ms: u64,
    pub yields: bool,
    pub fails: bool,
}

/// How a task ended.
#[derive(Clone, Copy, Debug, PartialEq, Eq)]
pub enum Outcome {
    Done,
    /// No handle became available within the acquire timeout.
    AcquireTimeout,
    /// The operation ran, and the backing system reported a failure.
    OperationFailed,
}

/// The parameters of one run: the two lanes, and the pool as it stood once
/// built. Handles are reused earliest-free first, ties to the oldest handle.
#[derive(Clone, Copy, Debug, PartialEq, Eq)]
pub struct RunParams {
    pub worker_threads: usize,
    pub blocking_threads: usize,
    pub pool_max_size: usize,
    /// Handles open when the pool was reported ready.
    pub established: usize,
    /// Whether the pool can open further handles.
    pub reachable: bool,
    pub acquire_timeout_ms: u64,
}

/// What happened to one task. All tasks are spawned at time zero, so the
/// time at which a task completes is also its elapsed time.
#[derive(Clone, Copy, Debug, PartialEq, Eq)]
pub struct TaskRecord {
    pub id: usize,
    pub kind: TaskKind,
    pub lane: Lane,
    /// Index of the thread, within its lane, that picked the task up.
    pub thread: usize,
    pub start_ms: u64,
    pub elapsed_ms: u64,
    pub outcome: Outcome,
}

pub open spec fn params_wf(p: RunParams) -> bool {
    &&& 1 <= p.worker_threads <= MAX_THREADS
    &&& 1 <= p.blocking_threads <= MAX_THREADS
    &&& p.established <= p.pool_max_size <= MAX_TASKS
    &&& p.acquire_timeout_ms <= MAX_TIMEOUT_MS
}

pub open spec fn tasks_wf(tasks: Seq<TaskSpec>) -> bool {
    &&& tasks.len() <= MAX_TASKS
    &&& forall|i: int| 0 <= i < tasks.len() ==> tasks[i].duration_ms <= MAX_DURATION_MS
}

/// When each thread of each lane, and each open handle, is next free.
pub struct SimState {
    pub workers: Seq<int>,
    pub blocking: Seq<int>,
    pub handles: Seq<int>,
}

/// One task's passage through the model, and the state it leaves behind.
pub struct Step {
    pub next: SimState,
    pub thread: int,
    pub start: int,
    pub end: int,
    pub timed_out: bool,
}

pub open spec fn initial(p: RunParams) -> SimState {
    SimState {
        workers: Seq::new(p.worker_threads as nat, |i: int| 0int),
        blocking: Seq::new(p.blocking_threads as nat, |i: int| 0int),
        handles: Seq::new(p.established as nat, |i: int| 0int),
    }
}

/// Whether a resource task that starts at `start` opens a new handle: only
/// when the pool can grow and no open handle is free by then.
pub open spec fn opens_handle(p: RunParams, hs: Seq<int>, start: int) -> bool {
    &&& p.reachable
    &&& hs.len() < p.pool_max_size
    &&& (hs.len() == 0 || hs[first_min(hs)] > start)
}

/// The model of one task. The task is picked up by the thread of its lane
/// that is free first, ties to the lowest index. A probe completes there at
/// once. A resource task takes the handle that is free first (or a new one,
/// see `opens_handle`); if it would wait longer than the acquire timeout it
/// gives up when the timeout expires, otherwise it uses the handle for its
/// duration. A resource task holds its thread until it ends when it runs on
/// the blocking lane or does not yield; a yielding cooperative task leaves
/// the worker free for others.
pub open spec fn step(p: RunParams, st: SimState, t: TaskSpec) -> Step {
    let coop = t.lane == Lane::Cooperative;
    let lane = if coop { st.workers } else { st.blocking };
    let th = first_min(lane);
    let start = lane[th];
    if t.kind == TaskKind::Probe {
        Step { next: st, thread: th, start, end: start, timed_out: false }
    } else {
        let hs = st.handles;
        let grow = opens_handle(p, hs, start);
        let h = if grow { hs.len() as int } else { first_min(hs) };
        let hs2 = if grow { hs.push(start) } else { hs };
        let got = if hs2.len() == 0 { start } else if hs2[h] > start { hs2[h] } else { start };
        let timed_out = hs2.len() == 0 || got - start > p.acquire_timeout_ms;
        let end = if timed_out { start + p.acquire_timeout_ms } else { got + t.duration_ms };
        let handles = if timed_out { hs } else { hs2.update(h, end) };
        let lane2 = if !coop || !t.yields { lane.update(th, end) } else { lane };
        let next = if coop {
            SimState { workers: lane2, blocking: st.blocking, handles }
        } else {
            SimState { workers: st.workers, blocking: lane2, handles }
        };
        Step { next, thread: th, start, end, timed_out }
    }
}

/// The state after the first `k` tasks.
pub open spec fn state_after(p: RunParams, tasks: Seq<TaskSpec>, k: int) -> SimState
    decreases k,
{
    if k <= 0 {
        initial(p)
    } else {
        step(p, state_after(p, tasks, k - 1), tasks[k - 1]).next
    }
}

/// The model of the task at index `k`.
pub open spec fn step_at(p: RunParams, tasks: Seq<TaskSpec>, k: int) -> Step {
    step(p, state_after(p, tasks, k), tasks[k])
}

/// `r` reports the task at index `k` as the model says.
pub open spec fn record_matches(p: RunParams, tasks: Seq<TaskSpec>, k: int, r: TaskRecord) -> bool {
    let s = step_at(p, tasks, k);
    &&& r.id == k
    &&& r.kind == tasks[k].kind
    &&& r.lane == tasks[k].lane
    &&& r.thread == s.thread
    &&& r.start_ms == s.start
    &&& r.elapsed_ms == s.end
    &&& r.outcome == if s.timed_out {
        Outcome::AcquireTimeout
    } else if tasks[k].kind == TaskKind::Resource && tasks[k].fails {
        Outcome::OperationFailed
    } else {
        Outcome::Done
    }
}

/// Longest time one task can add to any clock of the model.
pub const STEP_BOUND_MS: u64 = 33554432;

/// Every clock of `st` lies in `[0, b]`.
pub open spec fn bounded(st: SimState, b: int) -> bool {
    &&& forall|i: int| 0 <= i < st.workers.len() ==> 0 <= #[trigger] st.workers[i] <= b
    &&& forall|i: int| 0 <= i < st.blocking.len() ==> 0 <= #[trigger] st.blocking[i] <= b
    &&& forall|i: int| 0 <= i < st.handles.len() ==> 0 <= #[trigger] st.handles[i] <= b
}

/// The lanes keep their sizes and the pool never exceeds its capacity.
pub open spec fn shaped(p: RunParams, st: SimState) -> bool {
    &&& st.workers.len() == p.worker_threads
    &&& st.blocking.len() == p.blocking_threads
    &&& st.handles.len() <= p.pool_max_size
}

pub proof fn lemma_step_bounded(p: RunParams, st: SimState, t: TaskSpec, b: int)
    requires
        params_wf(p),
        shaped(p, st),
        bounded(st, b),
        t.duration_ms <= MAX_DURATION_MS,
    ensures
        ({
            let s = step(p, st, t);
            let lane = if t.lane == Lane::Cooperative { st.workers } else { st.blocking };
            &&& shaped(p, s.next)
            &&& bounded(s.next, b + STEP_BOUND_MS)
            &&& 0 <= s.thread < lane.len()
            &&& s.start == lane[s.thread]
            &&& 0 <= s.start <= b
            &&& s.start <= s.end <= b + STEP_BOUND_MS
        }),
{
    let lane = if t.lane == Lane::Cooperative { st.workers } else { st.blocking };
    lemma_first_min_exists(lane);
    if st.handles.len() > 0 {
        lemma_first_min_exists(st.handles);
    }
}

pub proof fn lemma_state_after_bounded(p: RunParams, tasks: Seq<TaskSpec>, k: int)
    requires
        params_wf(p),
        tasks_wf(tasks),
        0 <= k <= tasks.len(),
    ensures
        shaped(p, state_after(p, tasks, k)),
        bounded(state_after(p, tasks, k), k * STEP_BOUND_MS),
    decreases k,
{
    if k > 0 {
        lemma_state_after_bounded(p, tasks, k - 1);
        lemma_step_bounded(p, state_after(p, tasks, k - 1), tasks[k - 1], (k - 1) * STEP_BOUND_MS);
        assert((k - 1) * STEP_BOUND_MS + STEP_BOUND_MS == k * STEP_BOUND_MS) by (nonlinear_arith);
    }
}

/// No task of a run ends later than `MAX_ELAPSED_MS`.
pub proof fn lemma_end_bounded(p: RunParams, tasks: Seq<TaskSpec>, k: int)
    requires
        params_wf(p),
        tasks_wf(tasks),
        0 <= k < tasks.len(),
    ensures
        0 <= step_at(p, tasks, k).end <= MAX_ELAPSED_MS,
{
    lemma_state_after_bounded(p, tasks, k);
    lemma_step_bounded(p, state_after(p, tasks, k), tasks[k], k * STEP_BOUND_MS);
    assert(k * STEP_BOUND_MS + STEP_BOUND_MS <= MAX_ELAPSED_MS) by (nonlinear_arith)
        requires
            k < MAX_TASKS,
    ;
}

/// No task moves a clock backwards.
pub proof fn lemma_workers_never_rewind(p: RunParams, tasks: Seq<TaskSpec>, k: int, m: int, w: int)
    requires
        params_wf(p),
        tasks_wf(tasks),
        0 <= k <= m <= tasks.len(),
        0 <= w < p.worker_threads,
    ensures
        state_after(p, tasks, k).workers[w] <= state_after(p, tasks, m).workers[w],
    decreases m - k,
{
    if k < m {
        lemma_workers_never_rewind(p, tasks, k, m - 1, w);
        lemma_state_after_bounded(p, tasks, m - 1);
        lemma_step_bounded(p, state_after(p, tasks, m - 1), tasks[m - 1], (m - 1) * STEP_BOUND_MS);
    }
}

/// Every resource task runs on the blocking lane.
pub open spec fn resources_off_workers(tasks: Seq<TaskSpec>) -> bool {
    forall|i: int| 0 <= i < tasks.len() && tasks[i].kind == TaskKind::Resource
        ==> #[trigger] tasks[i].lane == Lane::Blocking
}

/// While resource tasks stay off the workers, every worker is free at time
/// zero.
pub proof fn lemma_workers_stay_free(p: RunParams, tasks: Seq<TaskSpec>, k: int)
    requires
        params_wf(p),
        tasks_wf(tasks),
        resources_off_workers(tasks),
        0 <= k <= tasks.len(),
    ensures
        forall|w: int| 0 <= w < p.worker_threads ==> #[trigger] state_after(p, tasks, k).workers[w] == 0,
    decreases k,
{
    if k > 0 {
        lemma_workers_stay_free(p, tasks, k - 1);
        lemma_state_after_bounded(p, tasks, k - 1);
        lemma_step_bounded(p, state_after(p, tasks, k - 1), tasks[k - 1], (k - 1) * STEP_BOUND_MS);
    }
}

/// When every resource task runs on the blocking lane, every probe on the
/// cooperative lane completes at time zero, however long the resource tasks
/// take and however many of them there are.
pub proof fn lemma_probes_unaffected_by_blocking_lane(p: RunParams, tasks: Seq<TaskSpec>)
    requires
        params_wf(p),
        tasks_wf(tasks),
        resources_off_workers(tasks),
    ensures
        forall|i: int|
            0 <= i < tasks.len() && tasks[i].kind == TaskKind::Probe && tasks[i].lane == Lane::Cooperative
                ==> #[trigger] step_at(p, tasks, i).end == 0,
{
    assert forall|i: int|
        0 <= i < tasks.len() && tasks[i].kind == TaskKind::Probe && tasks[i].lane == Lane::Cooperative
            implies #[trigger] step_at(p, tasks, i).end == 0 by {
        lemma_workers_stay_free(p, tasks, i);
        lemma_state_after_bounded(p, tasks, i);
        lemma_step_bounded(p, state_after(p, tasks, i), tasks[i], i * STEP_BOUND_MS);
    }
}

/// A resource task that holds a cooperative worker (it does not yield) delays
/// every later probe picked up by that same worker by at least the task's
/// duration.
pub proof fn lemma_blocking_on_worker_delays_probe(p: RunParams, tasks: Seq<TaskSpec>, i: int, j: int)
    requires
        params_wf(p),
        tasks_wf(tasks),
        0 <= i < j < tasks.len(),
        tasks[i].kind == TaskKind::Resource,
        tasks[i].lane == Lane::Cooperative,
        !tasks[i].yields,
        !step_at(p, tasks, i).timed_out,
        tasks[j].kind == TaskKind::Probe,
        tasks[j].lane == Lane::Cooperative,
        step_at(p, tasks, j).thread == step_at(p, tasks, i).thread,
    ensures
        step_at(p, tasks, j).end >= tasks[i].duration_ms,
{
    let w = step_at(p, tasks, i).thread;
    lemma_state_after_bounded(p, tasks, i);
    lemma_step_bounded(p, state_after(p, tasks, i), tasks[i], i * STEP_BOUND_MS);
    lemma_state_after_bounded(p, tasks, j);
    lemma_step_bounded(p, state_after(p, tasks, j), tasks[j], j * STEP_BOUND_MS);
    lemma_workers_never_rewind(p, tasks, i + 1, j, w);
}

/// The model's state, read from the clocks of an implementation.
pub open spec fn view_of(workers: Seq<u64>, blocking: Seq<u64>, handles: Seq<u64>) -> SimState {
    SimState { workers: as_ints(workers), blocking: as_ints(blocking), handles: as_ints(handles) }
}

/// A vector of `n` zero clocks.
fn zeros(n: usize) -> (r: Vec<u64>)
    ensures
        as_ints(r@) == Seq::new(n as nat, |i: int| 0int),
{
    let mut r: Vec<u64> = Vec::new();
    let mut i: usize = 0;
    while i < n
        invariant
            i <= n,
            r@.len() == i,
            forall|j: int| 0 <= j < i ==> r@[j] == 0,
        decreases n - i,
    {
        r.push(0);
        i = i + 1;
    }
    assert(as_ints(r@) =~= Seq::new(n as nat, |i: int| 0int));
    r
}

/// Runs one task through the model, updating the clocks in place. Returns
/// the thread, start, end and whether the task timed out.
fn advance(
    p: RunParams,
    workers: &mut Vec<u64>,
    blocking: &mut Vec<u64>,
    handles: &mut Vec<u64>,
    t: TaskSpec,
    k: usize,
) -> (r: (usize, u64, u64, bool))
    requires
        params_wf(p),
        k < MAX_TASKS,
        t.duration_ms <= MAX_DURATION_MS,
        shaped(p, view_of(old(workers)@, old(blocking)@, old(handles)@)),
        bounded(view_of(old(workers)@, old(blocking)@, old(handles)@), k * STEP_BOUND_MS),
    ensures
        ({
            let s = step(p, view_of(old(workers)@, old(blocking)@, old(handles)@), t);
            &&& view_of(final(workers)@, final(blocking)@, final(handles)@) == s.next
            &&& r.0 == s.thread
            &&& r.1 == s.start
            &&& r.2 == s.end
            &&& r.3 == s.timed_out
        }),
{
    let ghost st = view_of(workers@, blocking@, handles@);
    proof {
        lemma_step_bounded(p, st, t, k * STEP_BOUND_MS);
    }
    let coop = match t.lane {
        Lane::Cooperative => true,
        Lane::Blocking => false,
    };
    let th = if coop { earliest(workers) } else { earliest(blocking) };
    let start = if coop { workers[th] } else { blocking[th] };
    let probe = match t.kind {
        TaskKind::Probe => true,
        TaskKind::Resource => false,
    };
    if probe {
        proof {
            assert(view_of(workers@, blocking@, handles@) == step(p, st, t).next);
        }
        return (th, start, start, false);
    }
    let ghost hs = st.handles;
    let mut grow = false;
    let mut h: usize = 0;
    if handles.len() > 0 {
        h = earliest(handles);
        proof {
            lemma_first_min_exists(hs);
        }
    }
    if p.reachable && handles.len() < p.pool_max_size && (handles.len() == 0 || handles[h] > start) {
        grow = true;
        handles.push(start);
        h = handles.len() - 1;
    }
    assert(grow == opens_handle(p, hs, start as int));
    let ghost hs2 = as_ints(handles@);
    assert(hs2 =~= if grow { hs.push(start as int) } else { hs });
    let timed_out: bool;
    let end: u64;
    if handles.len() == 0 {
        timed_out = true;
        end = start + p.acquire_timeout_ms;
    } else {
        let got = if handles[h] > start { handles[h] } else { start };
        if got - start > p.acquire_timeout_ms {
            timed_out = true;
            end = start + p.acquire_timeout_ms;
        } else {
            timed_out = false;
            end = got + t.duration_ms;
            handles.set(h, end);
        }
    }
    let ghost s = step(p, st, t);
    assert(as_ints(handles@) =~= s.next.handles);
    if !coop || !t.yields {
        if coop {
            workers.set(th, end);
        } else {
            blocking.set(th, end);
        }
    }
    assert(as_ints(workers@) =~= s.next.workers);
    assert(as_ints(blocking@) =~= s.next.blocking);
    (th, start, end, timed_out)
}

/// Runs `tasks`, all spawned at time zero in the order given, through the
/// model and reports each one.
pub fn simulate(p: RunParams, tasks: &Vec<TaskSpec>) -> (r: Vec<TaskRecord>)
    requires
        params_wf(p),
        tasks_wf(tasks@),
    ensures
        r@.len() == tasks@.len(),
        forall|i: int| 0 <= i < tasks@.len() ==> record_matches(p, tasks@, i, #[trigger] r@[i]),
{
    let mut workers = zeros(p.worker_threads);
    let mut blocking = zeros(p.blocking_threads);
    let mut handles = zeros(p.established);
    let mut records: Vec<TaskRecord> = Vec::new();
    let mut k: usize = 0;
    proof {
        assert(view_of(workers@, blocking@, handles@) == state_after(p, tasks@, 0));
    }
    while k < tasks.len()
        invariant
            params_wf(p),
            tasks_wf(tasks@),
            k <= tasks@.len(),
            view_of(workers@, blocking@, handles@) == state_after(p, tasks@, k as int),
            shaped(p, view_of(workers@, blocking@, handles@)),
            bounded(view_of(workers@, blocking@, handles@), k * STEP_BOUND_MS),
            records@.len() == k,
            forall|i: int| 0 <= i < k ==> record_matches(p, tasks@, i, #[trigger] records@[i]),
        decreases tasks@.len() - k,
    {
        let t = tasks[k];
        proof {
            lemma_step_bounded(p, view_of(workers@, blocking@, handles@), t, k * STEP_BOUND_MS);
        }
        let (th, start, end, timed_out) = advance(p, &mut workers, &mut blocking, &mut handles, t, k);
        let resource = match t.kind {
            TaskKind::Probe => false,
            TaskKind::Resource => true,
        };
        let outcome = if timed_out {
            Outcome::AcquireTimeout
        } else if resource && t.fails {
            Outcome::OperationFailed
        } else {
            Outcome::Done
        };
        records.push(TaskRecord { id: k, kind: t.kind, lane: t.lane, thread: th, start_ms: start, elapsed_ms: end, outcome });
        proof {
            assert((k + 1) * STEP_BOUND_MS == k * STEP_BOUND_MS + STEP_BOUND_MS) by (nonlinear_arith);
        }
        k = k + 1;
    }
    records
}

} // verus!
