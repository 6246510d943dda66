use starvation::pool::{PoolConfig, PoolError, ResourcePool};

fn config(max_size: usize, min_idle: usize) -> PoolConfig {
    PoolConfig { max_size, min_idle, acquire_timeout_ms: 3000 }
}

#[test]
fn build_establishes_min_idle() {
    let pool = ResourcePool::build(config(4, 2), true).unwrap();
    assert_eq!(pool.idle_count(), 2);
    assert_eq!(pool.leased_count(), 0);
}

#[test]
fn unreachable_without_min_idle_builds_then_times_out() {
    let mut pool = ResourcePool::build(config(4, 0), false).unwrap();
    assert_eq!(pool.idle_count(), 0);
    assert_eq!(pool.acquire(), Err(PoolError::AcquireTimeout));
}

#[test]
fn unreachable_with_min_idle_fails_build() {
    let r = ResourcePool::build(config(4, 1), false);
    assert_eq!(r.err(), Some(PoolError::Build { min_idle: 1 }));
}

#[test]
fn invalid_configs_are_refused() {
    assert_eq!(ResourcePool::build(config(0, 0), true).err(), Some(PoolError::InvalidConfig));
    assert_eq!(ResourcePool::build(config(2, 3), true).err(), Some(PoolError::InvalidConfig));
}

#[test]
fn idle_handles_are_reused_first_in_first_out() {
    let mut pool = ResourcePool::build(config(3, 2), true).unwrap();
    assert_eq!(pool.acquire(), Ok(0));
    assert_eq!(pool.acquire(), Ok(1));
    pool.release(1);
    pool.release(0);
    assert_eq!(pool.acquire(), Ok(1));
    assert_eq!(pool.acquire(), Ok(0));
}

#[test]
fn pool_grows_to_capacity_then_times_out() {
    let mut pool = ResourcePool::build(config(2, 0), true).unwrap();
    assert_eq!(pool.acquire(), Ok(0));
    assert_eq!(pool.acquire(), Ok(1));
    assert_eq!(pool.acquire(), Err(PoolError::AcquireTimeout));
    assert_eq!(pool.leased_count(), 2);
    pool.release(0);
    assert_eq!(pool.acquire(), Ok(0));
}

#[test]
fn top_up_replaces_lost_handles() {
    let mut pool = ResourcePool::build(config(3, 2), true).unwrap();
    let a = pool.acquire().unwrap();
    let b = pool.acquire().unwrap();
    pool.discard(a);
    pool.discard(b);
    assert_eq!(pool.idle_count(), 0);
    assert_eq!(pool.top_up(), 2);
    assert_eq!(pool.idle_count(), 2);
    assert_eq!(pool.acquire(), Ok(2));
    assert_eq!(pool.top_up(), 1);
    assert_eq!(pool.top_up(), 0);
}

#[test]
fn top_up_stops_at_capacity() {
    let mut pool = ResourcePool::build(config(2, 2), true).unwrap();
    pool.acquire().unwrap();
    pool.acquire().unwrap();
    assert_eq!(pool.top_up(), 0);
}

#[test]
fn close_counts_every_handle() {
    let mut pool = ResourcePool::build(config(5, 3), true).unwrap();
    pool.acquire().unwrap();
    assert_eq!(pool.close(), 3);
}
