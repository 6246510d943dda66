use starvation::experiment::{
    classify, interleaved, max_probe_latency, probe_latency_variance, run, ExperimentConfig, SetupError, Verdict,
    DEFAULT_STARVATION_THRESHOLD_MS,
};
use starvation::schedule::{simulate, Lane, Outcome, RunParams, TaskKind, TaskSpec};

fn config(workers: usize, blocking: usize, max_size: usize, min_idle: usize) -> ExperimentConfig {
    ExperimentConfig {
        worker_thread_count: workers,
        blocking_thread_count: blocking,
        pool_max_size: max_size,
        pool_min_idle: min_idle,
        pool_acquire_timeout_ms: 3000,
        endpoint: String::from("postgresql://root@127.0.0.1:32221?sslmode=disable"),
        starvation_threshold_ms: DEFAULT_STARVATION_THRESHOLD_MS,
    }
}

fn probe_latencies(records: &[starvation::schedule::TaskRecord]) -> Vec<u64> {
    records.iter().filter(|r| r.kind == TaskKind::Probe).map(|r| r.elapsed_ms).collect()
}

fn resource(duration_ms: u64, lane: Lane, yields: bool) -> TaskSpec {
    TaskSpec { kind: TaskKind::Resource, lane, duration_ms, yields, fails: false }
}

fn probe() -> TaskSpec {
    TaskSpec { kind: TaskKind::Probe, lane: Lane::Cooperative, duration_ms: 0, yields: true, fails: false }
}

#[test]
fn end_to_end_blocking_on_workers_starves_probes() {
    let tasks = interleaved(4, 1000, Lane::Cooperative, false, 4);
    let res = run(&config(4, 8, 32, 32), &tasks, true).unwrap();
    assert_eq!(probe_latencies(&res.records), vec![0, 0, 0, 1000, 1000, 1000, 1000, 1000]);
    let resources: Vec<u64> = res.records.iter().filter(|r| r.kind == TaskKind::Resource).map(|r| r.elapsed_ms).collect();
    assert_eq!(resources, vec![1000, 1000, 1000, 1000]);
    assert_eq!(res.records[7].thread, 0);
    assert_eq!(res.max_probe_latency_ms, 1000);
    assert_eq!(res.probe_latency_variance, 234375);
    assert_eq!(res.verdict, Verdict::Starved);
}

#[test]
fn end_to_end_yielding_operations_do_not_starve() {
    let tasks = interleaved(4, 1000, Lane::Cooperative, true, 4);
    let res = run(&config(4, 8, 32, 32), &tasks, true).unwrap();
    assert_eq!(probe_latencies(&res.records), vec![0; 8]);
    assert_eq!(res.probe_latency_variance, 0);
    assert_eq!(res.verdict, Verdict::NotStarved);
}

#[test]
fn blocking_lane_keeps_probes_at_zero() {
    let tasks = interleaved(8, 5000, Lane::Blocking, false, 12);
    let res = run(&config(4, 8, 32, 8), &tasks, true).unwrap();
    assert_eq!(probe_latencies(&res.records), vec![0; 20]);
    assert_eq!(res.max_probe_latency_ms, 0);
    assert_eq!(res.verdict, Verdict::NotStarved);
}

#[test]
fn probe_on_same_worker_waits_for_blocking_task() {
    let p = RunParams {
        worker_threads: 1,
        blocking_threads: 1,
        pool_max_size: 1,
        established: 1,
        reachable: true,
        acquire_timeout_ms: 3000,
    };
    let records = simulate(p, &vec![resource(1000, Lane::Cooperative, false), probe()]);
    assert_eq!(records[1].thread, records[0].thread);
    assert_eq!(records[1].elapsed_ms, 1000);
}

#[test]
fn saturated_blocking_lane_queues_resource_tasks() {
    let p = RunParams {
        worker_threads: 2,
        blocking_threads: 2,
        pool_max_size: 8,
        established: 8,
        reachable: true,
        acquire_timeout_ms: 3000,
    };
    let tasks = vec![resource(1000, Lane::Blocking, false); 3];
    let records = simulate(p, &tasks);
    let ends: Vec<u64> = records.iter().map(|r| r.elapsed_ms).collect();
    assert_eq!(ends, vec![1000, 1000, 2000]);
    assert_eq!(records[2].start_ms, 1000);
}

#[test]
fn waiting_longer_than_timeout_gives_up() {
    let p = RunParams {
        worker_threads: 1,
        blocking_threads: 2,
        pool_max_size: 1,
        established: 1,
        reachable: true,
        acquire_timeout_ms: 500,
    };
    let records = simulate(p, &vec![resource(1000, Lane::Blocking, false); 2]);
    assert_eq!(records[0].outcome, Outcome::Done);
    assert_eq!(records[1].outcome, Outcome::AcquireTimeout);
    assert_eq!(records[1].elapsed_ms, 500);
}

#[test]
fn waiting_within_timeout_gets_the_handle() {
    let p = RunParams {
        worker_threads: 1,
        blocking_threads: 2,
        pool_max_size: 1,
        established: 1,
        reachable: true,
        acquire_timeout_ms: 3000,
    };
    let records = simulate(p, &vec![resource(1000, Lane::Blocking, false); 2]);
    assert_eq!(records[1].outcome, Outcome::Done);
    assert_eq!(records[1].elapsed_ms, 2000);
}

#[test]
fn pool_opens_handles_on_demand() {
    let p = RunParams {
        worker_threads: 1,
        blocking_threads: 2,
        pool_max_size: 2,
        established: 0,
        reachable: true,
        acquire_timeout_ms: 0,
    };
    let records = simulate(p, &vec![resource(1000, Lane::Blocking, false); 2]);
    assert_eq!(records[0].outcome, Outcome::Done);
    assert_eq!(records[1].outcome, Outcome::Done);
    assert_eq!(records[1].elapsed_ms, 1000);
}

#[test]
fn unreachable_pool_times_out_resource_tasks() {
    let mut c = config(4, 8, 4, 0);
    c.pool_acquire_timeout_ms = 3000;
    let tasks = vec![resource(1000, Lane::Cooperative, true), probe()];
    let res = run(&c, &tasks, false).unwrap();
    assert_eq!(res.records[0].outcome, Outcome::AcquireTimeout);
    assert_eq!(res.records[0].elapsed_ms, 3000);
    assert_eq!(res.records[1].elapsed_ms, 0);
}

#[test]
fn unreachable_pool_with_min_idle_fails_setup() {
    let tasks = interleaved(1, 10, Lane::Blocking, false, 0);
    let err = run(&config(4, 8, 4, 1), &tasks, false).unwrap_err();
    assert_eq!(
        err,
        SetupError::PoolBuild {
            endpoint: String::from("postgresql://root@127.0.0.1:32221?sslmode=disable"),
            min_idle: 1,
            acquire_timeout_ms: 3000,
        }
    );
}

#[test]
fn bad_config_and_scenario_are_refused() {
    let tasks = interleaved(1, 10, Lane::Blocking, false, 0);
    assert_eq!(run(&config(0, 8, 4, 1), &tasks, true).unwrap_err(), SetupError::InvalidConfig);
    assert_eq!(run(&config(4, 8, 4, 5), &tasks, true).unwrap_err(), SetupError::InvalidConfig);
    let long = vec![resource(u64::MAX, Lane::Blocking, false)];
    assert_eq!(run(&config(4, 8, 4, 1), &long, true).unwrap_err(), SetupError::InvalidScenario);
}

#[test]
fn interleaved_alternates_then_trails() {
    let tasks = interleaved(2, 100, Lane::Blocking, false, 3);
    let kinds: Vec<TaskKind> = tasks.iter().map(|t| t.kind).collect();
    let (r, p) = (TaskKind::Resource, TaskKind::Probe);
    assert_eq!(kinds, vec![r, p, r, p, p, p, p]);
    assert_eq!(tasks[0].lane, Lane::Blocking);
    assert_eq!(tasks[1].lane, Lane::Cooperative);
    assert_eq!(tasks[2].duration_ms, 100);
}

#[test]
fn classify_against_threshold() {
    let p = RunParams {
        worker_threads: 1,
        blocking_threads: 1,
        pool_max_size: 1,
        established: 1,
        reachable: true,
        acquire_timeout_ms: 0,
    };
    let records = simulate(p, &vec![resource(5, Lane::Cooperative, false), probe()]);
    assert_eq!(max_probe_latency(&records), 5);
    assert_eq!(classify(&records, 5), Verdict::NotStarved);
    assert_eq!(classify(&records, 4), Verdict::Starved);
    assert_eq!(max_probe_latency(&vec![]), 0);
}

#[test]
fn failed_operation_is_reported_without_stopping_siblings() {
    let p = RunParams {
        worker_threads: 1,
        blocking_threads: 2,
        pool_max_size: 2,
        established: 2,
        reachable: true,
        acquire_timeout_ms: 0,
    };
    let failing = TaskSpec { fails: true, ..resource(300, Lane::Blocking, false) };
    let records = simulate(p, &vec![failing, resource(200, Lane::Blocking, false), probe()]);
    assert_eq!(records[0].outcome, Outcome::OperationFailed);
    assert_eq!(records[0].elapsed_ms, 300);
    assert_eq!(records[1].outcome, Outcome::Done);
    assert_eq!(records[2].outcome, Outcome::Done);
}

#[test]
fn variance_of_probe_latencies() {
    let p = RunParams {
        worker_threads: 1,
        blocking_threads: 1,
        pool_max_size: 1,
        established: 1,
        reachable: true,
        acquire_timeout_ms: 0,
    };
    let records = simulate(p, &vec![probe(), resource(10, Lane::Cooperative, false), probe()]);
    assert_eq!(probe_latencies(&records), vec![0, 10]);
    assert_eq!(probe_latency_variance(&records), 25);
    let records = simulate(p, &vec![probe(), resource(1, Lane::Cooperative, false), probe()]);
    assert_eq!(probe_latency_variance(&records), 0);
    assert_eq!(probe_latency_variance(&vec![]), 0);
}
