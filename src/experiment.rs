//! Runs a scenario through the model and classifies it as starved or not.

use vstd::prelude::*;

use crate::pool::{PoolConfig, PoolError, ResourcePool};
use crate::schedule::{
    lemma_end_bounded, params_wf, record_matches, simulate, step_at, tasks_wf, MAX_ELAPSED_MS, Lane, RunParams, TaskKind, TaskRecord, TaskSpec,
    MAX_DURATION_MS, MAX_TASKS, MAX_THREADS, MAX_TIMEOUT_MS,
};

verus! {

/// The model's scheduling granularity, in milliseconds.
pub const SCHEDULING_GRANULARITY_MS: u64 = 1;

/// Probe latency above which a run counts as starved, unless configured
/// otherwise: a small multiple of the scheduling granularity.
pub const DEFAULT_STARVATION_THRESHOLD_MS: u64 = 5;

/// The knobs of one experiment.
#[derive(Clone, Debug, PartialEq, Eq)]
pub struct ExperimentConfig {
    pub worker_thread_count: usize,
    pub blocking_thread_count: usize,
    pub pool_max_size: usize,
    pub pool_min_idle: usize,
    pub pool_acquire_timeout_ms: u64,
    /// Address and credentials of the backing resource.
    pub endpoint: String,
    pub starvation_threshold_ms: u64,
}

/// Why an experiment could not start.
#[derive(Clone, Debug, PartialEq, Eq)]
pub enum SetupError {
    /// A lane or the pool is sized outside what the model accepts.
    InvalidConfig,
    /// Too many tasks, or a task longer than the model accepts.
    InvalidScenario,
    /// The pool could not establish its idle handles.
    PoolBuild { endpoint: String, min_idle: usize, acquire_timeout_ms: u64 },
}

#[derive(Clone, Copy, Debug, PartialEq, Eq, Structural)]
pub enum Verdict {
    Starved,
    NotStarved,
}

/// Every task's record, and what they show.
#[derive(Clone, Debug, PartialEq, Eq)]
pub struct ExperimentResult {
    pub records: Vec<TaskRecord>,
    pub max_probe_latency_ms: u64,
    /// Population variance of the probes' elapsed times, in square
    /// milliseconds, rounded down.
    pub probe_latency_variance: u128,
    pub verdict: Verdict,
}

pub open spec fn is_probe(r: TaskRecord) -> bool {
    r.kind == TaskKind::Probe
}

/// `m` is the largest elapsed time of any probe, zero when there is none.
pub open spec fn is_max_probe_latency(rs: Seq<TaskRecord>, m: u64) -> bool {
    &&& forall|i: int| 0 <= i < rs.len() && is_probe(rs[i]) ==> rs[i].elapsed_ms <= m
    &&& (m == 0 || exists|i: int| 0 <= i < rs.len() && is_probe(rs[i]) && rs[i].elapsed_ms == m)
}

/// Some probe took longer than `threshold`.
pub open spec fn starved(rs: Seq<TaskRecord>, threshold: u64) -> bool {
    exists|i: int| 0 <= i < rs.len() && is_probe(rs[i]) && rs[i].elapsed_ms > threshold
}

pub open spec fn probe_count(rs: Seq<TaskRecord>) -> int
    decreases rs.len(),
{
    if rs.len() == 0 {
        0
    } else {
        probe_count(rs.drop_last()) + if is_probe(rs.last()) { 1int } else { 0int }
    }
}

pub open spec fn probe_sum(rs: Seq<TaskRecord>) -> int
    decreases rs.len(),
{
    if rs.len() == 0 {
        0
    } else {
        probe_sum(rs.drop_last()) + if is_probe(rs.last()) { rs.last().elapsed_ms as int } else { 0int }
    }
}

/// Sum over the probes of `(n * x - s)^2`, `x` being a probe's elapsed time.
pub open spec fn scaled_square_deviations(rs: Seq<TaskRecord>, n: int, s: int) -> int
    decreases rs.len(),
{
    if rs.len() == 0 {
        0
    } else {
        let d = n * rs.last().elapsed_ms - s;
        scaled_square_deviations(rs.drop_last(), n, s) + if is_probe(rs.last()) { d * d } else { 0int }
    }
}

/// Population variance of the probes' elapsed times, rounded down; zero when
/// there is no probe. With `n` probes summing to `s` it is
/// `sum((n * x - s)^2) / n^3`, the mean of `(x - s / n)^2`.
pub open spec fn probe_latency_variance_of(rs: Seq<TaskRecord>) -> int {
    let n = probe_count(rs);
    if n == 0 {
        0
    } else {
        scaled_square_deviations(rs, n, probe_sum(rs)) / (n * n * n)
    }
}

/// Records the model can produce: not too many, none ending too late.
pub open spec fn records_in_range(rs: Seq<TaskRecord>) -> bool {
    &&& rs.len() <= MAX_TASKS
    &&& forall|i: int| 0 <= i < rs.len() ==> rs[i].elapsed_ms <= MAX_ELAPSED_MS
}

proof fn lemma_counts_bounded(rs: Seq<TaskRecord>)
    requires
        records_in_range(rs),
    ensures
        0 <= probe_count(rs) <= rs.len(),
        0 <= probe_sum(rs) <= rs.len() * MAX_ELAPSED_MS,
    decreases rs.len(),
{
    if rs.len() > 0 {
        lemma_counts_bounded(rs.drop_last());
        assert((rs.len() - 1) * MAX_ELAPSED_MS + MAX_ELAPSED_MS == rs.len() * MAX_ELAPSED_MS) by (nonlinear_arith);
    }
}

proof fn lemma_deviation_bounded(n: int, x: int, s: int)
    requires
        0 <= n <= MAX_TASKS,
        0 <= x <= MAX_ELAPSED_MS,
        0 <= s <= MAX_TASKS * MAX_ELAPSED_MS,
    ensures
        0 <= (n * x - s) * (n * x - s) <= 0x4_0000_0000_0000_0000_0000_0000,
{
    assert(0 <= n * x <= MAX_TASKS * MAX_ELAPSED_MS) by (nonlinear_arith)
        requires
            0 <= n <= MAX_TASKS,
            0 <= x <= MAX_ELAPSED_MS,
    ;
    let d = n * x - s;
    assert(0 <= d * d <= 0x4_0000_0000_0000_0000_0000_0000) by (nonlinear_arith)
        requires
            -0x2_0000_0000_0000 <= d <= 0x2_0000_0000_0000,
    ;
}

/// Population variance of the probes' elapsed times, rounded down.
pub fn probe_latency_variance(records: &Vec<TaskRecord>) -> (v: u128)
    requires
        records_in_range(records@),
    ensures
        v == probe_latency_variance_of(records@),
{
    let mut n: u128 = 0;
    let mut s: u128 = 0;
    let mut i: usize = 0;
    while i < records.len()
        invariant
            i <= records@.len(),
            records_in_range(records@),
            n == probe_count(records@.take(i as int)),
            s == probe_sum(records@.take(i as int)),
            n <= i,
            s <= i * MAX_ELAPSED_MS,
        decreases records@.len() - i,
    {
        proof {
            assert(records@.take(i + 1).drop_last() =~= records@.take(i as int));
            assert((i + 1) * MAX_ELAPSED_MS == i * MAX_ELAPSED_MS + MAX_ELAPSED_MS) by (nonlinear_arith);
        }
        if is_probe_record(&records[i]) {
            n = n + 1;
            s = s + records[i].elapsed_ms as u128;
        }
        i = i + 1;
    }
    assert(records@.take(records@.len() as int) =~= records@);
    if n == 0 {
        return 0;
    }
    proof {
        assert(s <= MAX_TASKS * MAX_ELAPSED_MS) by (nonlinear_arith)
            requires
                s <= i * MAX_ELAPSED_MS,
                i <= MAX_TASKS,
        ;
    }
    let mut acc: u128 = 0;
    let mut j: usize = 0;
    while j < records.len()
        invariant
            j <= records@.len(),
            records_in_range(records@),
            1 <= n <= MAX_TASKS,
            s <= MAX_TASKS * MAX_ELAPSED_MS,
            acc == scaled_square_deviations(records@.take(j as int), n as int, s as int),
            acc <= j * 0x4_0000_0000_0000_0000_0000_0000,
        decreases records@.len() - j,
    {
        proof {
            assert(records@.take(j + 1).drop_last() =~= records@.take(j as int));
            assert((j + 1) * 0x4_0000_0000_0000_0000_0000_0000 == j * 0x4_0000_0000_0000_0000_0000_0000
                + 0x4_0000_0000_0000_0000_0000_0000) by (nonlinear_arith);
            lemma_deviation_bounded(n as int, records@[j as int].elapsed_ms as int, s as int);
            assert(0 <= n * (records@[j as int].elapsed_ms as int) <= MAX_TASKS * MAX_ELAPSED_MS) by (nonlinear_arith)
                requires
                    0 <= n <= MAX_TASKS,
                    0 <= records@[j as int].elapsed_ms <= MAX_ELAPSED_MS,
            ;
        }
        if is_probe_record(&records[j]) {
            let scaled = n * (records[j].elapsed_ms as u128);
            let d = if scaled >= s { scaled - s } else { s - scaled };
            proof {
                let e = n * (records@[j as int].elapsed_ms as int) - s;
                assert(d * d == e * e) by (nonlinear_arith)
                    requires
                        d == e || d == -e,
                ;
            }
            acc = acc + d * d;
        }
        j = j + 1;
    }
    assert(records@.take(records@.len() as int) =~= records@);
    proof {
        assert(1 <= n * n <= MAX_TASKS * MAX_TASKS) by (nonlinear_arith)
            requires
                1 <= n <= MAX_TASKS,
        ;
        assert(1 <= n * n * n <= MAX_TASKS * MAX_TASKS * MAX_TASKS) by (nonlinear_arith)
            requires
                1 <= n <= MAX_TASKS,
                1 <= n * n <= MAX_TASKS * MAX_TASKS,
        ;
    }
    let cube = n * n * n;
    acc / cube
}

fn is_probe_record(r: &TaskRecord) -> (b: bool)
    ensures
        b == is_probe(*r),
{
    match r.kind {
        TaskKind::Probe => true,
        TaskKind::Resource => false,
    }
}

/// The largest elapsed time of any probe, zero when there is none.
pub fn max_probe_latency(records: &Vec<TaskRecord>) -> (m: u64)
    ensures
        is_max_probe_latency(records@, m),
{
    let mut m: u64 = 0;
    let mut i: usize = 0;
    while i < records.len()
        invariant
            i <= records@.len(),
            is_max_probe_latency(records@.take(i as int), m),
        decreases records@.len() - i,
    {
        let probe = match records[i].kind {
            TaskKind::Probe => true,
            TaskKind::Resource => false,
        };
        proof {
            assert(forall|j: int| 0 <= j < i ==> records@.take(i + 1)[j] == records@.take(i as int)[j]);
        }
        if probe && records[i].elapsed_ms > m {
            m = records[i].elapsed_ms;
            assert(is_probe(records@.take(i + 1)[i as int]));
        }
        i = i + 1;
    }
    assert(records@.take(records@.len() as int) =~= records@);
    m
}

/// Starved when some probe took longer than `threshold_ms`.
pub fn classify(records: &Vec<TaskRecord>, threshold_ms: u64) -> (v: Verdict)
    ensures
        v == (if starved(records@, threshold_ms) { Verdict::Starved } else { Verdict::NotStarved }),
{
    let m = max_probe_latency(records);
    if m > threshold_ms {
        Verdict::Starved
    } else {
        Verdict::NotStarved
    }
}

/// The task at `i` of an interleaved scenario.
pub open spec fn interleaved_task(resources: int, duration_ms: u64, lane: Lane, yields: bool, i: int) -> TaskSpec {
    if i < 2 * resources && i % 2 == 0 {
        TaskSpec { kind: TaskKind::Resource, lane, duration_ms, yields, fails: false }
    } else {
        TaskSpec { kind: TaskKind::Probe, lane: Lane::Cooperative, duration_ms: 0, yields: true, fails: false }
    }
}

/// `resources` resource tasks of `duration_ms` on `lane`, each followed by a
/// cooperative probe, then `trailing_probes` more probes.
pub fn interleaved(resources: usize, duration_ms: u64, lane: Lane, yields: bool, trailing_probes: usize) -> (r: Vec<TaskSpec>)
    requires
        2 * resources + trailing_probes <= usize::MAX,
    ensures
        r@.len() == 2 * resources + trailing_probes,
        forall|i: int| 0 <= i < r@.len() ==> r@[i] == interleaved_task(resources as int, duration_ms, lane, yields, i),
{
    let n = 2 * resources + trailing_probes;
    let mut r: Vec<TaskSpec> = Vec::new();
    let mut i: usize = 0;
    while i < n
        invariant
            n == 2 * resources + trailing_probes,
            i <= n,
            r@.len() == i,
            forall|j: int| 0 <= j < i ==> r@[j] == interleaved_task(resources as int, duration_ms, lane, yields, j),
        decreases n - i,
    {
        if i < 2 * resources && i % 2 == 0 {
            r.push(TaskSpec { kind: TaskKind::Resource, lane, duration_ms, yields, fails: false });
        } else {
            r.push(TaskSpec { kind: TaskKind::Probe, lane: Lane::Cooperative, duration_ms: 0, yields: true, fails: false });
        }
        i = i + 1;
    }
    r
}

pub open spec fn config_valid(c: ExperimentConfig) -> bool {
    &&& 1 <= c.worker_thread_count <= MAX_THREADS
    &&& 1 <= c.blocking_thread_count <= MAX_THREADS
    &&& 1 <= c.pool_max_size <= MAX_TASKS
    &&& c.pool_min_idle <= c.pool_max_size
    &&& c.pool_acquire_timeout_ms <= MAX_TIMEOUT_MS
}

/// The model's parameters for a run of `c` against an endpoint that is, or
/// is not, reachable.
pub open spec fn params_of(c: ExperimentConfig, reachable: bool) -> RunParams {
    RunParams {
        worker_threads: c.worker_thread_count,
        blocking_threads: c.blocking_thread_count,
        pool_max_size: c.pool_max_size,
        established: if reachable { c.pool_min_idle } else { 0 },
        reachable,
        acquire_timeout_ms: c.pool_acquire_timeout_ms,
    }
}

fn check_tasks(tasks: &Vec<TaskSpec>) -> (ok: bool)
    ensures
        ok == tasks_wf(tasks@),
{
    if tasks.len() > MAX_TASKS {
        return false;
    }
    let mut i: usize = 0;
    while i < tasks.len()
        invariant
            i <= tasks@.len(),
            forall|j: int| 0 <= j < i ==> tasks@[j].duration_ms <= MAX_DURATION_MS,
        decreases tasks@.len() - i,
    {
        if tasks[i].duration_ms > MAX_DURATION_MS {
            return false;
        }
        i = i + 1;
    }
    true
}

/// Builds the pool, runs `tasks` (all spawned at once, in order) through the
/// model of the two lanes, and classifies the run. Setup fails on a
/// configuration or scenario out of range, and when the pool cannot establish
/// its idle handles because the endpoint is unreachable.
pub fn run(config: &ExperimentConfig, tasks: &Vec<TaskSpec>, reachable: bool) -> (r: Result<ExperimentResult, SetupError>)
    ensures
        match r {
            Ok(res) => {
                &&& config_valid(*config)
                &&& tasks_wf(tasks@)
                &&& (reachable || config.pool_min_idle == 0)
                &&& res.records@.len() == tasks@.len()
                &&& forall|i: int| 0 <= i < tasks@.len()
                    ==> record_matches(params_of(*config, reachable), tasks@, i, #[trigger] res.records@[i])
                &&& is_max_probe_latency(res.records@, res.max_probe_latency_ms)
                &&& res.probe_latency_variance == probe_latency_variance_of(res.records@)
                &&& res.verdict == if starved(res.records@, config.starvation_threshold_ms) {
                    Verdict::Starved
                } else {
                    Verdict::NotStarved
                }
            },
            Err(SetupError::InvalidConfig) => !config_valid(*config),
            Err(SetupError::InvalidScenario) => config_valid(*config) && !tasks_wf(tasks@),
            Err(SetupError::PoolBuild { endpoint, min_idle, acquire_timeout_ms }) => {
                &&& config_valid(*config)
                &&& tasks_wf(tasks@)
                &&& !reachable
                &&& config.pool_min_idle > 0
                &&& endpoint@ == config.endpoint@
                &&& min_idle == config.pool_min_idle
                &&& acquire_timeout_ms == config.pool_acquire_timeout_ms
            },
        },
{
    if config.worker_thread_count < 1 || config.worker_thread_count > MAX_THREADS
        || config.blocking_thread_count < 1 || config.blocking_thread_count > MAX_THREADS
        || config.pool_max_size < 1 || config.pool_max_size > MAX_TASKS
        || config.pool_min_idle > config.pool_max_size
        || config.pool_acquire_timeout_ms > MAX_TIMEOUT_MS {
        return Err(SetupError::InvalidConfig);
    }
    if !check_tasks(tasks) {
        return Err(SetupError::InvalidScenario);
    }
    let pool_config = PoolConfig {
        max_size: config.pool_max_size,
        min_idle: config.pool_min_idle,
        acquire_timeout_ms: config.pool_acquire_timeout_ms,
    };
    let pool = match ResourcePool::build(pool_config, reachable) {
        Ok(pool) => pool,
        Err(_) => {
            return Err(SetupError::PoolBuild {
                endpoint: config.endpoint.clone(),
                min_idle: config.pool_min_idle,
                acquire_timeout_ms: config.pool_acquire_timeout_ms,
            });
        },
    };
    let params = RunParams {
        worker_threads: config.worker_thread_count,
        blocking_threads: config.blocking_thread_count,
        pool_max_size: config.pool_max_size,
        established: pool.idle_count(),
        reachable,
        acquire_timeout_ms: config.pool_acquire_timeout_ms,
    };
    assert(params == params_of(*config, reachable));
    let records = simulate(params, tasks);
    let max_probe_latency_ms = max_probe_latency(&records);
    proof {
        assert forall|i: int| 0 <= i < records@.len() implies records@[i].elapsed_ms <= MAX_ELAPSED_MS by {
            assert(record_matches(params, tasks@, i, records@[i]));
            lemma_end_bounded(params, tasks@, i);
        }
    }
    let probe_latency_variance = probe_latency_variance(&records);
    let verdict = classify(&records, config.starvation_threshold_ms);
    Ok(ExperimentResult { records, max_probe_latency_ms, probe_latency_variance, verdict })
}

} // verus!
