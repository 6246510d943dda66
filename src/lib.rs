//! A harness that measures whether blocking work run inside a cooperative
//! runtime can stall unrelated tasks. The library holds a deterministic model
//! of the runtime's two lanes, of the bounded resource pool and of
//! first-completion races, together with the classification of a run.

pub mod experiment;
pub mod pool;
pub mod race;
pub mod schedule;
pub mod timeline;
