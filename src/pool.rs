//! A bounded pool of reusable handles with pre-warmed idle handles.

use vstd::prelude::*;

verus! {

/// Capacity, pre-warmed handles and acquire timeout of a pool.
#[derive(Clone, Copy, Debug, PartialEq, Eq)]
pub struct PoolConfig {
    pub max_size: usize,
    pub min_idle: usize,
    pub acquire_timeout_ms: u64,
}

#[derive(Clone, Copy, Debug, PartialEq, Eq, Structural)]
pub enum PoolError {
    /// The configuration asks for no capacity, or for more idle handles than
    /// the capacity.
    InvalidConfig,
    /// The endpoint could not be reached, so the `min_idle` handles asked for
    /// could not be established.
    Build { min_idle: usize },
    /// No handle was idle and none could be opened.
    AcquireTimeout,
}

pub open spec fn config_wf(c: PoolConfig) -> bool {
    1 <= c.max_size && c.min_idle <= c.max_size
}

/// A bounded pool of handles, each named by a number. Idle handles are
/// handed out oldest-released first: `acquire` takes the front of the idle
/// queue and `release` appends to its back.
///
/// The pool is a sequential model. An `acquire` that finds nothing idle and
/// cannot open a handle answers `AcquireTimeout`, which is what a caller
/// waiting for the timeout would get if no handle came back meanwhile.
pub struct ResourcePool {
    config: PoolConfig,
    reachable: bool,
    idle: Vec<u64>,
    leased: Vec<u64>,
    next_id: u64,
}

pub struct PoolView {
    pub config: PoolConfig,
    pub reachable: bool,
    pub idle: Seq<u64>,
    pub leased: Seq<u64>,
    pub next_id: u64,
}

impl View for ResourcePool {
    type V = PoolView;

    closed spec fn view(&self) -> PoolView {
        PoolView {
            config: self.config,
            reachable: self.reachable,
            idle: self.idle@,
            leased: self.leased@,
            next_id: self.next_id,
        }
    }
}

pub open spec fn distinct(s: Seq<u64>) -> bool {
    forall|i: int, j: int| 0 <= i < s.len() && 0 <= j < s.len() && i != j ==> s[i] != s[j]
}

pub open spec fn below(s: Seq<u64>, n: u64) -> bool {
    forall|i: int| 0 <= i < s.len() ==> s[i] < n
}

/// Idle and leased handles together never exceed the capacity, and every
/// handle is in exactly one of the two.
pub open spec fn view_wf(v: PoolView) -> bool {
    &&& config_wf(v.config)
    &&& v.idle.len() + v.leased.len() <= v.config.max_size
    &&& distinct(v.idle)
    &&& distinct(v.leased)
    &&& forall|i: int, j: int| 0 <= i < v.idle.len() && 0 <= j < v.leased.len() ==> v.idle[i] != v.leased[j]
    &&& below(v.idle, v.next_id)
    &&& below(v.leased, v.next_id)
}

/// Whether a new handle can be opened now.
pub open spec fn can_open(v: PoolView) -> bool {
    &&& v.reachable
    &&& v.idle.len() + v.leased.len() < v.config.max_size
    &&& v.next_id < u64::MAX
}

/// Handles `0..n`.
pub open spec fn fresh_ids(from: u64, n: nat) -> Seq<u64> {
    Seq::new(n, |i: int| (from + i) as u64)
}

/// What building a pool gives: the `min_idle` handles when the endpoint is
/// reached; when it is not, an empty pool if none were asked for and an
/// error otherwise.
pub open spec fn spec_build(c: PoolConfig, reachable: bool) -> Result<PoolView, PoolError> {
    if !config_wf(c) {
        Err(PoolError::InvalidConfig)
    } else if !reachable && c.min_idle > 0 {
        Err(PoolError::Build { min_idle: c.min_idle })
    } else {
        let n: nat = if reachable { c.min_idle as nat } else { 0 };
        Ok(PoolView { config: c, reachable, idle: fresh_ids(0, n), leased: seq![], next_id: n as u64 })
    }
}

/// The pool after an `acquire`, and what the `acquire` returns.
pub open spec fn spec_acquire(v: PoolView) -> (PoolView, Result<u64, PoolError>) {
    if v.idle.len() > 0 {
        (
            PoolView { idle: v.idle.drop_first(), leased: v.leased.push(v.idle[0]), ..v },
            Ok(v.idle[0]),
        )
    } else if can_open(v) {
        (
            PoolView { leased: v.leased.push(v.next_id), next_id: (v.next_id + 1) as u64, ..v },
            Ok(v.next_id),
        )
    } else {
        (v, Err(PoolError::AcquireTimeout))
    }
}

impl ResourcePool {
    pub open spec fn wf(&self) -> bool {
        view_wf(self@)
    }

    /// Builds a pool, establishing `min_idle` handles if `reachable`.
    pub fn build(config: PoolConfig, reachable: bool) -> (r: Result<ResourcePool, PoolError>)
        ensures
            match r {
                Ok(pool) => pool.wf() && spec_build(config, reachable) == Ok::<PoolView, PoolError>(pool@),
                Err(e) => spec_build(config, reachable) == Err::<PoolView, PoolError>(e),
            },
    {
        if config.max_size < 1 || config.min_idle > config.max_size {
            return Err(PoolError::InvalidConfig);
        }
        if !reachable && config.min_idle > 0 {
            return Err(PoolError::Build { min_idle: config.min_idle });
        }
        let n: usize = if reachable { config.min_idle } else { 0 };
        let mut idle: Vec<u64> = Vec::new();
        let mut i: usize = 0;
        while i < n
            invariant
                i <= n,
                idle@ == fresh_ids(0, i as nat),
            decreases n - i,
        {
            idle.push(i as u64);
            i = i + 1;
            assert(idle@ =~= fresh_ids(0, i as nat));
        }
        let pool = ResourcePool { config, reachable, idle, leased: Vec::new(), next_id: n as u64 };
        assert(pool@ == spec_build(config, reachable)->Ok_0);
        Ok(pool)
    }

    /// Number of idle handles.
    pub fn idle_count(&self) -> (r: usize)
        ensures
            r == self@.idle.len(),
    {
        self.idle.len()
    }

    /// Number of leased handles.
    pub fn leased_count(&self) -> (r: usize)
        ensures
            r == self@.leased.len(),
    {
        self.leased.len()
    }

    /// Leases a handle: the oldest idle one, else a new one if the pool can
    /// grow, else `AcquireTimeout`. The handle is a plain id that the caller
    /// owns, so it may be moved into another task and outlive the caller.
    pub fn acquire(&mut self) -> (r: Result<u64, PoolError>)
        requires
            old(self).wf(),
        ensures
            final(self).wf(),
            (final(self)@, r) == spec_acquire(old(self)@),
    {
        if self.idle.len() > 0 {
            let id = self.idle.remove(0);
            self.leased.push(id);
            proof {
                let v = old(self)@;
                assert(self@.idle =~= v.idle.drop_first());
                assert(forall|i: int| 0 <= i < self@.idle.len() ==> self@.idle[i] == v.idle[i + 1]);
                assert(forall|i: int| 0 <= i < v.leased.len() ==> self@.leased[i] == v.leased[i]);
                assert(self@ == spec_acquire(v).0);
            }
            Ok(id)
        } else if self.reachable && self.leased.len() < self.config.max_size && self.next_id < u64::MAX {
            let id = self.next_id;
            self.leased.push(id);
            self.next_id = self.next_id + 1;
            proof {
                let v = old(self)@;
                assert(forall|i: int| 0 <= i < v.leased.len() ==> self@.leased[i] == v.leased[i]);
                assert(self@ == spec_acquire(v).0);
            }
            Ok(id)
        } else {
            Err(PoolError::AcquireTimeout)
        }
    }

    /// Returns a leased handle to the back of the idle queue.
    pub fn release(&mut self, id: u64)
        requires
            old(self).wf(),
            old(self)@.leased.contains(id),
        ensures
            final(self).wf(),
            final(self)@.idle == old(self)@.idle.push(id),
            exists|k: int|
                0 <= k < old(self)@.leased.len() && old(self)@.leased[k] == id
                    && final(self)@.leased == old(self)@.leased.remove(k),
            final(self)@.config == old(self)@.config,
            final(self)@.reachable == old(self)@.reachable,
            final(self)@.next_id == old(self)@.next_id,
    {
        let k = self.position(id);
        self.leased.remove(k);
        self.idle.push(id);
        proof {
            let v = old(self)@;
            assert(forall|i: int| 0 <= i < k ==> self@.leased[i] == v.leased[i]);
            assert(forall|i: int| k <= i < self@.leased.len() ==> self@.leased[i] == v.leased[i + 1]);
            assert(forall|i: int| 0 <= i < v.idle.len() ==> self@.idle[i] == v.idle[i]);
        }
    }

    /// Closes a leased handle that was lost; `top_up` may replace it.
    pub fn discard(&mut self, id: u64)
        requires
            old(self).wf(),
            old(self)@.leased.contains(id),
        ensures
            final(self).wf(),
            final(self)@.idle == old(self)@.idle,
            exists|k: int|
                0 <= k < old(self)@.leased.len() && old(self)@.leased[k] == id
                    && final(self)@.leased == old(self)@.leased.remove(k),
            final(self)@.config == old(self)@.config,
            final(self)@.reachable == old(self)@.reachable,
            final(self)@.next_id == old(self)@.next_id,
    {
        let k = self.position(id);
        self.leased.remove(k);
        proof {
            let v = old(self)@;
            assert(forall|i: int| 0 <= i < k ==> self@.leased[i] == v.leased[i]);
            assert(forall|i: int| k <= i < self@.leased.len() ==> self@.leased[i] == v.leased[i + 1]);
        }
    }

    fn position(&self, id: u64) -> (k: usize)
        requires
            self@.leased.contains(id),
        ensures
            k < self@.leased.len(),
            self@.leased[k as int] == id,
    {
        let mut k: usize = 0;
        while k < self.leased.len()
            invariant
                k <= self@.leased.len(),
                self@.leased.contains(id),
                forall|i: int| 0 <= i < k ==> self@.leased[i] != id,
            decreases self@.leased.len() - k,
        {
            if self.leased[k] == id {
                return k;
            }
            k = k + 1;
        }
        k
    }

    /// Opens new idle handles until `min_idle` are idle, the pool is full, or
    /// no handle can be opened. Returns how many were opened.
    pub fn top_up(&mut self) -> (n: usize)
        requires
            old(self).wf(),
        ensures
            final(self).wf(),
            final(self)@.idle == old(self)@.idle + fresh_ids(old(self)@.next_id, n as nat),
            final(self)@.leased == old(self)@.leased,
            final(self)@.next_id == old(self)@.next_id + n,
            final(self)@.config == old(self)@.config,
            final(self)@.reachable == old(self)@.reachable,
            final(self)@.idle.len() >= final(self)@.config.min_idle || !can_open(final(self)@),
            n > 0 ==> old(self)@.idle.len() + n <= old(self)@.config.min_idle,
            !old(self)@.reachable ==> n == 0,
    {
        let mut n: usize = 0;
        while self.idle.len() < self.config.min_idle && self.reachable
            && self.idle.len() + self.leased.len() < self.config.max_size && self.next_id < u64::MAX
            invariant
                self.wf(),
                self@.idle == old(self)@.idle + fresh_ids(old(self)@.next_id, n as nat),
                self@.leased == old(self)@.leased,
                self@.next_id == old(self)@.next_id + n,
                self@.config == old(self)@.config,
                self@.reachable == old(self)@.reachable,
                n > 0 ==> self@.idle.len() <= self@.config.min_idle,
                !self@.reachable ==> n == 0,
            decreases self@.config.max_size - self@.idle.len() - self@.leased.len(),
        {
            let id = self.next_id;
            self.idle.push(id);
            self.next_id = self.next_id + 1;
            n = n + 1;
            assert(self@.idle =~= old(self)@.idle + fresh_ids(old(self)@.next_id, n as nat));
        }
        n
    }

    /// Tears the pool down, closing every handle. Returns how many were open.
    pub fn close(self) -> (n: usize)
        requires
            self.wf(),
        ensures
            n == self@.idle.len() + self@.leased.len(),
    {
        self.idle.len() + self.leased.len()
    }
}

/// Building against an endpoint that cannot be reached succeeds when no idle
/// handles are asked for, but then the first `acquire` times out; asking for
/// one or more idle handles fails the build itself.
pub proof fn lemma_unreachable_endpoint(c: PoolConfig)
    requires
        config_wf(c),
    ensures
        c.min_idle == 0 ==> spec_build(c, false) is Ok
            && spec_acquire(spec_build(c, false)->Ok_0).1 == Err::<u64, PoolError>(PoolError::AcquireTimeout),
        c.min_idle >= 1 ==> spec_build(c, false) == Err::<PoolView, PoolError>(PoolError::Build { min_idle: c.min_idle }),
{
}

} // verus!
